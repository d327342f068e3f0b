//! The detached restart driver: wait for the daemon to exit, start it again once, see that it
//! lives, leave a receipt.
//!
//! [`RestartDriver`] decides; the caller performs each [`DriverAction`] and hands back the
//! [`DriverEvent`] that came of it. Spans of time are nanoseconds. There are no retries: a driver
//! that outlives its budget gives up.
use vstd::prelude::*;
use vstd::string::*;

use crate::numeral;
use crate::restart;
use crate::text;

verus! {

/// How long the daemon may take to exit: its drain budget, plus slack for teardown.
pub const PARENT_EXIT_BUDGET: u128 = 120_000_000_000;

/// How long the restarted seat may take to show a live pid.
pub const RESPAWN_VERIFY_WAIT: u128 = 10_000_000_000;

/// Pause between two looks.
pub const POLL_INTERVAL: u128 = 500_000_000;

/// Nanoseconds in a second.
pub const NANOS_PER_SEC: u128 = 1_000_000_000;

/// How a driver ended.
pub enum DriverExit {
    /// Another live driver holds the lock.
    LockHeld,
    /// The parent outlived the budget (in nanoseconds).
    ParentAlive { parent_pid: u32, budget: u128 },
    /// The command line named nothing to start.
    NoTarget,
    /// The start failed.
    LaunchFailed { reason: String },
    /// No live pid showed up within the verify budget.
    NotVerified,
    /// The seat is up again.
    Respawned { parent_pid: u32, new_pid: u32 },
}

/// What a [`DriverExit`] says.
pub enum ExitView {
    LockHeld,
    ParentAlive { parent_pid: u32, budget: u128 },
    NoTarget,
    LaunchFailed { reason: Seq<char> },
    NotVerified,
    Respawned { parent_pid: u32, new_pid: u32 },
}

impl View for DriverExit {
    type V = ExitView;

    open spec fn view(&self) -> ExitView {
        match *self {
            DriverExit::LockHeld => ExitView::LockHeld,
            DriverExit::ParentAlive { parent_pid, budget } => ExitView::ParentAlive {
                parent_pid,
                budget,
            },
            DriverExit::NoTarget => ExitView::NoTarget,
            DriverExit::LaunchFailed { reason } => ExitView::LaunchFailed { reason: reason@ },
            DriverExit::NotVerified => ExitView::NotVerified,
            DriverExit::Respawned { parent_pid, new_pid } => ExitView::Respawned {
                parent_pid,
                new_pid,
            },
        }
    }
}

/// The process exit code: zero where a restart is under way or done.
pub open spec fn exit_code(exit: ExitView) -> i32 {
    if exit is LockHeld || exit is Respawned {
        0
    } else {
        1
    }
}

/// The line that an exit is logged with.
pub open spec fn exit_text(exit: ExitView) -> Seq<char> {
    match exit {
        ExitView::LockHeld => "restart-driver: another driver holds "@ + restart::DRIVER_PID_FILE@
            + " \u{2014} exiting without respawn"@,
        ExitView::ParentAlive { parent_pid, budget } => "restart-driver: parent "@
            + numeral::decimal(parent_pid as nat) + " still alive after "@ + numeral::decimal(
            (budget / NANOS_PER_SEC) as nat,
        ) + "s \u{2014} giving up (seat stays up; no respawn)"@,
        ExitView::NoTarget => "restart-driver: no respawn target in argv \u{2014} nothing to do"@,
        ExitView::LaunchFailed { reason } => "restart-driver: respawn failed \u{2014} "@ + reason,
        ExitView::NotVerified =>
            "restart-driver: respawn failed \u{2014} no live respawned pid within verify budget"@,
        ExitView::Respawned { parent_pid, new_pid } => "restart-driver: respawned as pid "@
            + numeral::decimal(new_pid as nat) + " (was "@ + numeral::decimal(parent_pid as nat)
            + ")"@,
    }
}

impl DriverExit {
    /// The process exit code.
    pub fn code(&self) -> (r: i32)
        ensures
            r == exit_code(self@),
    {
        match self {
            DriverExit::LockHeld => 0,
            DriverExit::Respawned { .. } => 0,
            _ => 1,
        }
    }

    /// The line to log.
    pub fn message(&self) -> (r: String)
        ensures
            r@ == exit_text(self@),
    {
        match self {
            DriverExit::LockHeld => {
                let mut out = text::join(
                    "restart-driver: another driver holds ",
                    restart::DRIVER_PID_FILE,
                );
                out.append(" \u{2014} exiting without respawn");
                out
            },
            DriverExit::ParentAlive { parent_pid, budget } => {
                let mut out = text::join(
                    "restart-driver: parent ",
                    numeral::write_decimal(*parent_pid as u128).as_str(),
                );
                out.append(" still alive after ");
                out.append(numeral::write_decimal(*budget / NANOS_PER_SEC).as_str());
                out.append("s \u{2014} giving up (seat stays up; no respawn)");
                out
            },
            DriverExit::NoTarget => {
                "restart-driver: no respawn target in argv \u{2014} nothing to do".to_owned()
            },
            DriverExit::LaunchFailed { reason } => text::join(
                "restart-driver: respawn failed \u{2014} ",
                reason.as_str(),
            ),
            DriverExit::NotVerified => {
                "restart-driver: respawn failed \u{2014} no live respawned pid within verify budget".to_owned()
            },
            DriverExit::Respawned { parent_pid, new_pid } => {
                let mut out = text::join(
                    "restart-driver: respawned as pid ",
                    numeral::write_decimal(*new_pid as u128).as_str(),
                );
                out.append(" (was ");
                out.append(numeral::write_decimal(*parent_pid as u128).as_str());
                out.append(")");
                out
            },
        }
    }

    fn copy(&self) -> (r: Self)
        ensures
            r@ == self@,
    {
        match self {
            DriverExit::LockHeld => DriverExit::LockHeld,
            DriverExit::ParentAlive { parent_pid, budget } => DriverExit::ParentAlive {
                parent_pid: *parent_pid,
                budget: *budget,
            },
            DriverExit::NoTarget => DriverExit::NoTarget,
            DriverExit::LaunchFailed { reason } => DriverExit::LaunchFailed {
                reason: reason.clone(),
            },
            DriverExit::NotVerified => DriverExit::NotVerified,
            DriverExit::Respawned { parent_pid, new_pid } => DriverExit::Respawned {
                parent_pid: *parent_pid,
                new_pid: *new_pid,
            },
        }
    }
}

/// What came of an action. `elapsed` is the time since the driver began to wait, first for the
/// parent to go and later for the restarted seat to come.
pub enum DriverEvent {
    /// The content of the lock file, if it could be read.
    LockRead { content: Option<String> },
    /// Whether the process lives.
    Probed { alive: bool, elapsed: u128 },
    /// The launch returned.
    Launched { result: Result<(), String> },
    /// What the restarted seat shows of itself, if it could be read.
    RespawnRead { content: Option<String>, elapsed: u128 },
    /// A write or a pause is over.
    Done,
}

/// What a [`DriverEvent`] says.
pub enum EventView {
    LockRead { content: Option<Seq<char>> },
    Probed { alive: bool, elapsed: u128 },
    Launched { result: Result<(), Seq<char>> },
    RespawnRead { content: Option<Seq<char>>, elapsed: u128 },
    Done,
}

impl View for DriverEvent {
    type V = EventView;

    open spec fn view(&self) -> EventView {
        match *self {
            DriverEvent::LockRead { content } => EventView::LockRead {
                content: text::option_text(content),
            },
            DriverEvent::Probed { alive, elapsed } => EventView::Probed { alive, elapsed },
            DriverEvent::Launched { result } => EventView::Launched {
                result: match result {
                    Ok(()) => Ok(()),
                    Err(e) => Err(e@),
                },
            },
            DriverEvent::RespawnRead { content, elapsed } => EventView::RespawnRead {
                content: text::option_text(content),
                elapsed,
            },
            DriverEvent::Done => EventView::Done,
        }
    }
}

/// What the caller is to do next.
pub enum DriverAction {
    ReadLock,
    /// See whether the process lives.
    Probe { pid: u32 },
    /// Write the lock file; it is removed again when the driver exits.
    WriteLock { line: String },
    /// Wait for one poll interval.
    Pause,
    /// `launchctl kickstart` the service.
    Kickstart { service: String },
    /// Run the start script, detached.
    RunScript { script: String },
    /// Read the output of `launchctl print` for the service.
    ReadJob { service: String },
    /// Read the seat's pid file.
    ReadPidFile,
    /// Write the receipt for the next boot.
    WriteReceipt { parent_pid: u32, new_pid: u32 },
    Exit { exit: DriverExit },
}

/// What a [`DriverAction`] asks for.
pub enum ActionView {
    ReadLock,
    Probe { pid: u32 },
    WriteLock { line: Seq<char> },
    Pause,
    Kickstart { service: Seq<char> },
    RunScript { script: Seq<char> },
    ReadJob { service: Seq<char> },
    ReadPidFile,
    WriteReceipt { parent_pid: u32, new_pid: u32 },
    Exit { exit: ExitView },
}

impl View for DriverAction {
    type V = ActionView;

    open spec fn view(&self) -> ActionView {
        match *self {
            DriverAction::ReadLock => ActionView::ReadLock,
            DriverAction::Probe { pid } => ActionView::Probe { pid },
            DriverAction::WriteLock { line } => ActionView::WriteLock { line: line@ },
            DriverAction::Pause => ActionView::Pause,
            DriverAction::Kickstart { service } => ActionView::Kickstart { service: service@ },
            DriverAction::RunScript { script } => ActionView::RunScript { script: script@ },
            DriverAction::ReadJob { service } => ActionView::ReadJob { service: service@ },
            DriverAction::ReadPidFile => ActionView::ReadPidFile,
            DriverAction::WriteReceipt { parent_pid, new_pid } => ActionView::WriteReceipt {
                parent_pid,
                new_pid,
            },
            DriverAction::Exit { exit } => ActionView::Exit { exit: exit@ },
        }
    }
}

/// Where a driver stands.
enum Stage {
    ReadingLock,
    ProbingHolder { pid: u32 },
    WritingLock,
    ProbingParent,
    PausingForParent,
    Launching,
    ReadingRespawn,
    ProbingRespawn { pid: u32 },
    PausingForRespawn,
    WritingReceipt { pid: u32 },
    Exited { exit: DriverExit },
}

/// What a driver knows of where it stands.
pub enum StageView {
    ReadingLock,
    ProbingHolder { pid: u32 },
    WritingLock,
    ProbingParent,
    PausingForParent,
    Launching,
    ReadingRespawn,
    ProbingRespawn { pid: u32 },
    PausingForRespawn,
    WritingReceipt { pid: u32 },
    Exited { exit: ExitView },
}

impl Stage {
    spec fn model(self) -> StageView {
        match self {
            Stage::ReadingLock => StageView::ReadingLock,
            Stage::ProbingHolder { pid } => StageView::ProbingHolder { pid },
            Stage::WritingLock => StageView::WritingLock,
            Stage::ProbingParent => StageView::ProbingParent,
            Stage::PausingForParent => StageView::PausingForParent,
            Stage::Launching => StageView::Launching,
            Stage::ReadingRespawn => StageView::ReadingRespawn,
            Stage::ProbingRespawn { pid } => StageView::ProbingRespawn { pid },
            Stage::PausingForRespawn => StageView::PausingForRespawn,
            Stage::WritingReceipt { pid } => StageView::WritingReceipt { pid },
            Stage::Exited { exit } => StageView::Exited { exit: exit@ },
        }
    }
}

/// The decisions of one driver.
pub struct RestartDriver {
    parent_pid: u32,
    own_pid: u32,
    target: restart::RespawnTarget,
    budget: u128,
    verify_budget: u128,
    stage: Stage,
}

/// A [`RestartDriver`] as contracts see it.
pub struct DriverView {
    /// The daemon that is to go.
    pub parent_pid: u32,
    /// The driver itself.
    pub own_pid: u32,
    pub target: restart::TargetView,
    /// How long the parent may take to go.
    pub budget: u128,
    /// How long the restarted seat may take to come.
    pub verify_budget: u128,
    pub stage: StageView,
}

impl View for RestartDriver {
    type V = DriverView;

    closed spec fn view(&self) -> DriverView {
        DriverView {
            parent_pid: self.parent_pid,
            own_pid: self.own_pid,
            target: self.target@,
            budget: self.budget,
            verify_budget: self.verify_budget,
            stage: self.stage.model(),
        }
    }
}

/// The pid that the restarted seat shows, if it shows one worth looking at. In a pid file the old
/// daemon's pid is stale.
pub open spec fn respawn_candidate(
    target: restart::TargetView,
    content: Option<Seq<char>>,
    parent_pid: u32,
) -> Option<u32> {
    match (target, content) {
        (restart::TargetView::Launchd { .. }, Some(c)) => restart::first_line_pid(c, 0),
        (restart::TargetView::Script(_), Some(c)) => restart::foreign_holder(Some(c), parent_pid),
        _ => None,
    }
}

/// Where a look that found no restarted seat leads.
pub open spec fn not_yet(d: DriverView, elapsed: u128) -> StageView {
    if elapsed >= d.verify_budget {
        StageView::Exited { exit: ExitView::NotVerified }
    } else {
        StageView::PausingForRespawn
    }
}

/// Where event `e` takes a driver. An event that does not answer the pending action changes
/// nothing.
pub open spec fn next_stage(d: DriverView, e: EventView) -> StageView {
    match (d.stage, e) {
        (StageView::ReadingLock, EventView::LockRead { content }) => {
            match restart::foreign_holder(content, d.own_pid) {
                Some(pid) => StageView::ProbingHolder { pid },
                None => StageView::WritingLock,
            }
        },
        (StageView::ProbingHolder { .. }, EventView::Probed { alive, .. }) => if alive {
            StageView::Exited { exit: ExitView::LockHeld }
        } else {
            StageView::WritingLock
        },
        (StageView::WritingLock, EventView::Done) => StageView::ProbingParent,
        (StageView::ProbingParent, EventView::Probed { alive, elapsed }) => if !alive {
            if d.target is Unset {
                StageView::Exited { exit: ExitView::NoTarget }
            } else {
                StageView::Launching
            }
        } else if elapsed >= d.budget {
            StageView::Exited {
                exit: ExitView::ParentAlive { parent_pid: d.parent_pid, budget: d.budget },
            }
        } else {
            StageView::PausingForParent
        },
        (StageView::PausingForParent, EventView::Done) => StageView::ProbingParent,
        (StageView::Launching, EventView::Launched { result }) => match result {
            Ok(()) => StageView::ReadingRespawn,
            Err(reason) => StageView::Exited { exit: ExitView::LaunchFailed { reason } },
        },
        (StageView::ReadingRespawn, EventView::RespawnRead { content, elapsed }) => {
            match respawn_candidate(d.target, content, d.parent_pid) {
                Some(pid) => StageView::ProbingRespawn { pid },
                None => not_yet(d, elapsed),
            }
        },
        (StageView::ProbingRespawn { pid }, EventView::Probed { alive, elapsed }) => if alive {
            StageView::WritingReceipt { pid }
        } else {
            not_yet(d, elapsed)
        },
        (StageView::PausingForRespawn, EventView::Done) => StageView::ReadingRespawn,
        (StageView::WritingReceipt { pid }, EventView::Done) => StageView::Exited {
            exit: ExitView::Respawned { parent_pid: d.parent_pid, new_pid: pid },
        },
        _ => d.stage,
    }
}

/// The driver after event `e`.
pub open spec fn after_event(d: DriverView, e: EventView) -> DriverView {
    DriverView { stage: next_stage(d, e), ..d }
}

/// What a driver asks for next.
pub open spec fn pending(d: DriverView) -> ActionView {
    match d.stage {
        StageView::ReadingLock => ActionView::ReadLock,
        StageView::ProbingHolder { pid } => ActionView::Probe { pid },
        StageView::WritingLock => ActionView::WriteLock { line: restart::lock_text(d.own_pid) },
        StageView::ProbingParent => ActionView::Probe { pid: d.parent_pid },
        StageView::PausingForParent => ActionView::Pause,
        StageView::Launching => match d.target {
            restart::TargetView::Launchd { uid, label } => ActionView::Kickstart {
                service: restart::service_text(uid, label),
            },
            restart::TargetView::Script(path) => ActionView::RunScript { script: path },
            restart::TargetView::Unset => ActionView::Exit { exit: ExitView::NoTarget },
        },
        StageView::ReadingRespawn => match d.target {
            restart::TargetView::Launchd { uid, label } => ActionView::ReadJob {
                service: restart::service_text(uid, label),
            },
            _ => ActionView::ReadPidFile,
        },
        StageView::ProbingRespawn { pid } => ActionView::Probe { pid },
        StageView::PausingForRespawn => ActionView::Pause,
        StageView::WritingReceipt { pid } => ActionView::WriteReceipt {
            parent_pid: d.parent_pid,
            new_pid: pid,
        },
        StageView::Exited { exit } => ActionView::Exit { exit },
    }
}

fn as_text(s: &Option<String>) -> (r: Option<&str>)
    ensures
        text::opt(r) == text::option_text(*s),
{
    match s {
        Some(t) => Some(t.as_str()),
        None => None,
    }
}

impl RestartDriver {
    /// A driver that has done nothing yet. The budgets are nanoseconds.
    pub fn new(
        parent_pid: u32,
        own_pid: u32,
        target: restart::RespawnTarget,
        budget: u128,
        verify_budget: u128,
    ) -> (r: Self)
        ensures
            r@ == (DriverView {
                parent_pid,
                own_pid,
                target: target@,
                budget,
                verify_budget,
                stage: StageView::ReadingLock,
            }),
    {
        RestartDriver { parent_pid, own_pid, target, budget, verify_budget, stage: Stage::ReadingLock }
    }

    /// What to do next.
    pub fn action(&self) -> (r: DriverAction)
        ensures
            r@ == pending(self@),
    {
        match &self.stage {
            Stage::ReadingLock => DriverAction::ReadLock,
            Stage::ProbingHolder { pid } => DriverAction::Probe { pid: *pid },
            Stage::WritingLock => DriverAction::WriteLock {
                line: restart::lock_line(self.own_pid),
            },
            Stage::ProbingParent => DriverAction::Probe { pid: self.parent_pid },
            Stage::PausingForParent => DriverAction::Pause,
            Stage::Launching => match &self.target {
                restart::RespawnTarget::Launchd { uid, label } => DriverAction::Kickstart {
                    service: restart::launchd_service(uid.as_str(), label.as_str()),
                },
                restart::RespawnTarget::Script(path) => DriverAction::RunScript {
                    script: path.clone(),
                },
                restart::RespawnTarget::Unset => DriverAction::Exit { exit: DriverExit::NoTarget },
            },
            Stage::ReadingRespawn => match &self.target {
                restart::RespawnTarget::Launchd { uid, label } => DriverAction::ReadJob {
                    service: restart::launchd_service(uid.as_str(), label.as_str()),
                },
                _ => DriverAction::ReadPidFile,
            },
            Stage::ProbingRespawn { pid } => DriverAction::Probe { pid: *pid },
            Stage::PausingForRespawn => DriverAction::Pause,
            Stage::WritingReceipt { pid } => DriverAction::WriteReceipt {
                parent_pid: self.parent_pid,
                new_pid: *pid,
            },
            Stage::Exited { exit } => DriverAction::Exit { exit: exit.copy() },
        }
    }

    fn lock_read(&self, content: Option<&str>) -> (r: Stage)
        ensures
            r.model() == (match restart::foreign_holder(text::opt(content), self@.own_pid) {
                Some(pid) => StageView::ProbingHolder { pid },
                None => StageView::WritingLock,
            }),
    {
        match restart::lock_holder(content, self.own_pid) {
            Some(pid) => Stage::ProbingHolder { pid },
            None => Stage::WritingLock,
        }
    }

    fn parent_probed(&self, alive: bool, elapsed: u128) -> (r: Stage)
        requires
            self@.stage is ProbingParent,
        ensures
            r.model() == next_stage(self@, EventView::Probed { alive, elapsed }),
    {
        if !alive {
            return match &self.target {
                restart::RespawnTarget::Unset => Stage::Exited { exit: DriverExit::NoTarget },
                _ => Stage::Launching,
            };
        }
        if elapsed >= self.budget {
            return Stage::Exited {
                exit: DriverExit::ParentAlive { parent_pid: self.parent_pid, budget: self.budget },
            };
        }
        Stage::PausingForParent
    }

    fn respawn_not_seen(&self, elapsed: u128) -> (r: Stage)
        ensures
            r.model() == not_yet(self@, elapsed),
    {
        if elapsed >= self.verify_budget {
            Stage::Exited { exit: DriverExit::NotVerified }
        } else {
            Stage::PausingForRespawn
        }
    }

    fn respawn_read(&self, content: Option<&str>, elapsed: u128) -> (r: Stage)
        ensures
            r.model() == (match respawn_candidate(
                self@.target,
                text::opt(content),
                self@.parent_pid,
            ) {
                Some(pid) => StageView::ProbingRespawn { pid },
                None => not_yet(self@, elapsed),
            }),
    {
        let candidate: Option<u32> = match (&self.target, content) {
            (restart::RespawnTarget::Launchd { .. }, Some(c)) => restart::launchctl_print_pid(c),
            (restart::RespawnTarget::Script(_), Some(c)) => restart::lock_holder(
                Some(c),
                self.parent_pid,
            ),
            _ => None,
        };
        match candidate {
            Some(pid) => Stage::ProbingRespawn { pid },
            None => self.respawn_not_seen(elapsed),
        }
    }

    /// Takes in what came of the pending action.
    pub fn step(self, event: DriverEvent) -> (r: Self)
        ensures
            r@ == after_event(self@, event@),
    {
        let ghost before = self@;
        let ghost told = event@;
        let stage = match (&self.stage, event) {
            (Stage::ReadingLock, DriverEvent::LockRead { content }) => {
                self.lock_read(as_text(&content))
            },
            (Stage::ProbingHolder { .. }, DriverEvent::Probed { alive, .. }) => {
                if alive {
                    Stage::Exited { exit: DriverExit::LockHeld }
                } else {
                    Stage::WritingLock
                }
            },
            (Stage::WritingLock, DriverEvent::Done) => Stage::ProbingParent,
            (Stage::ProbingParent, DriverEvent::Probed { alive, elapsed }) => {
                self.parent_probed(alive, elapsed)
            },
            (Stage::PausingForParent, DriverEvent::Done) => Stage::ProbingParent,
            (Stage::Launching, DriverEvent::Launched { result }) => match result {
                Ok(()) => Stage::ReadingRespawn,
                Err(reason) => Stage::Exited { exit: DriverExit::LaunchFailed { reason } },
            },
            (Stage::ReadingRespawn, DriverEvent::RespawnRead { content, elapsed }) => {
                self.respawn_read(as_text(&content), elapsed)
            },
            (Stage::ProbingRespawn { pid }, DriverEvent::Probed { alive, elapsed }) => {
                if alive {
                    Stage::WritingReceipt { pid: *pid }
                } else {
                    self.respawn_not_seen(elapsed)
                }
            },
            (Stage::PausingForRespawn, DriverEvent::Done) => Stage::ReadingRespawn,
            (Stage::WritingReceipt { pid }, DriverEvent::Done) => Stage::Exited {
                exit: DriverExit::Respawned { parent_pid: self.parent_pid, new_pid: *pid },
            },
            _ => return self,
        };
        assert(stage.model() == next_stage(before, told));
        RestartDriver {
            parent_pid: self.parent_pid,
            own_pid: self.own_pid,
            target: self.target,
            budget: self.budget,
            verify_budget: self.verify_budget,
            stage,
        }
    }
}

// ---- What the driver promises ----

/// The driver after a run of events.
pub open spec fn after_run(d: DriverView, events: Seq<EventView>) -> DriverView
    decreases events.len(),
{
    if events.len() == 0 {
        d
    } else {
        after_event(after_run(d, events.drop_last()), events.last())
    }
}

/// Event `e` makes driver `d` launch the seat.
pub open spec fn launches_on(d: DriverView, e: EventView) -> bool {
    !(d.stage is Launching) && next_stage(d, e) is Launching
}

/// How often a run of events makes the driver launch the seat.
pub open spec fn launch_count(d: DriverView, events: Seq<EventView>) -> nat
    decreases events.len(),
{
    if events.len() == 0 {
        0
    } else {
        let before = after_run(d, events.drop_last());
        launch_count(d, events.drop_last()) + if launches_on(before, events.last()) {
            1nat
        } else {
            0nat
        }
    }
}

/// A driver that has not launched yet.
pub open spec fn before_launch(d: DriverView) -> bool {
    ||| d.stage is ReadingLock
    ||| d.stage is ProbingHolder
    ||| d.stage is WritingLock
    ||| d.stage is ProbingParent
    ||| d.stage is PausingForParent
}

/// A driver that gave up or stood back before it launched anything.
pub open spec fn ended_without_launch(d: DriverView) -> bool {
    d.stage matches StageView::Exited { exit } && (exit is LockHeld || exit is ParentAlive || exit
        is NoTarget)
}

/// A driver launches the seat once at most, whatever it hears: not at all while it waits, or where
/// it gives up or stands back, and exactly once from then on.
pub proof fn launches_at_most_once(d: DriverView, events: Seq<EventView>)
    requires
        d.stage is ReadingLock,
    ensures
        launch_count(d, events) == if before_launch(after_run(d, events)) || ended_without_launch(
            after_run(d, events),
        ) {
            0nat
        } else {
            1nat
        },
    decreases events.len(),
{
    if events.len() > 0 {
        launches_at_most_once(d, events.drop_last());
    }
}

/// The seat is launched exactly when the parent is seen to be gone and there is a target: never
/// while the parent lives.
pub proof fn launches_only_when_parent_is_gone(d: DriverView, e: EventView)
    ensures
        launches_on(d, e) <==> {
            &&& d.stage is ProbingParent
            &&& !(d.target is Unset)
            &&& e matches EventView::Probed { alive, .. }
            &&& !alive
        },
{
}

/// What holds of a driver at every point of a run.
pub open spec fn sound(d: DriverView) -> bool {
    &&& d.stage is Launching || d.stage is ReadingRespawn || d.stage is ProbingRespawn || d.stage
        is PausingForRespawn || d.stage is WritingReceipt ==> !(d.target is Unset)
    &&& d.target is Script ==> match d.stage {
        StageView::ProbingRespawn { pid } => pid != d.parent_pid,
        StageView::WritingReceipt { pid } => pid != d.parent_pid,
        StageView::Exited { exit: ExitView::Respawned { new_pid, .. } } => new_pid != d.parent_pid,
        _ => true,
    }
    &&& d.stage matches StageView::Exited { exit: ExitView::Respawned { parent_pid, .. } }
        ==> parent_pid == d.parent_pid && !(d.target is Unset)
}

/// A run never takes the old daemon's stale pid file for a restarted seat, and never looks for a
/// seat that nothing was there to start.
pub proof fn every_run_is_sound(d: DriverView, events: Seq<EventView>)
    requires
        d.stage is ReadingLock,
    ensures
        sound(after_run(d, events)),
        after_run(d, events) == (DriverView { stage: after_run(d, events).stage, ..d }),
    decreases events.len(),
{
    if events.len() > 0 {
        every_run_is_sound(d, events.drop_last());
    }
}

/// A receipt is written exactly for a pid that was just seen alive, and the driver reports a
/// respawn only once the receipt for that pid is written.
pub proof fn receipt_names_a_live_seat(d: DriverView, e: EventView, pid: u32)
    ensures
        !(d.stage is WritingReceipt) ==> (next_stage(d, e) == (StageView::WritingReceipt { pid })
            <==> {
            &&& d.stage == (StageView::ProbingRespawn { pid })
            &&& e matches EventView::Probed { alive, .. }
            &&& alive
        }),
        !(d.stage is Exited) && next_stage(d, e) == (StageView::Exited {
            exit: ExitView::Respawned { parent_pid: d.parent_pid, new_pid: pid },
        }) ==> d.stage == (StageView::WritingReceipt { pid }),
{
}

/// A driver that asks for the receipt has the restart behind it: from there on it can but write it
/// and report the respawn.
proof fn receipt_leads_to_respawn(d: DriverView, events: Seq<EventView>, n: int)
    requires
        0 <= n <= events.len(),
        after_run(d, events.take(n)).stage is WritingReceipt,
    ensures
        ({
            let end = after_run(d, events).stage;
            end is WritingReceipt || (end matches StageView::Exited { exit } && exit is Respawned)
        }),
    decreases events.len(),
{
    if n == events.len() {
        assert(events.take(n) =~= events);
    } else {
        assert(events.drop_last().take(n) =~= events.take(n));
        receipt_leads_to_respawn(d, events.drop_last(), n);
    }
}

/// A failed run leaves no receipt: where a driver exits with code one, it has at no point asked
/// for a receipt to be written.
pub proof fn failure_leaves_no_receipt(d: DriverView, events: Seq<EventView>)
    requires
        d.stage is ReadingLock,
        after_run(d, events).stage matches StageView::Exited { exit } && exit_code(exit) == 1,
    ensures
        forall|n: int|
            0 <= n <= events.len() ==> !(pending(#[trigger] after_run(d, events.take(n)))
                is WriteReceipt),
{
    assert forall|n: int| 0 <= n <= events.len() implies !(pending(
        #[trigger] after_run(d, events.take(n)),
    ) is WriteReceipt) by {
        if pending(after_run(d, events.take(n))) is WriteReceipt {
            receipt_leads_to_respawn(d, events, n);
        }
    }
}

/// Both waits are bounded: a look that comes at or after the budget ends the driver, unless it
/// finds what it waits for.
pub proof fn waits_are_bounded(
    d: DriverView,
    alive: bool,
    content: Option<Seq<char>>,
    elapsed: u128,
)
    ensures
        d.stage is ProbingParent && alive && elapsed >= d.budget ==> next_stage(
            d,
            EventView::Probed { alive, elapsed },
        ) == (StageView::Exited {
            exit: ExitView::ParentAlive { parent_pid: d.parent_pid, budget: d.budget },
        }),
        d.stage is ProbingRespawn && !alive && elapsed >= d.verify_budget ==> next_stage(
            d,
            EventView::Probed { alive, elapsed },
        ) == (StageView::Exited { exit: ExitView::NotVerified }),
        d.stage is ReadingRespawn && respawn_candidate(d.target, content, d.parent_pid) is None
            && elapsed >= d.verify_budget ==> next_stage(
            d,
            EventView::RespawnRead { content, elapsed },
        ) == (StageView::Exited { exit: ExitView::NotVerified }),
{
}

/// A live foreign driver keeps the restart: the second driver exits with code zero, and asks for
/// nothing but the lock file and that one probe.
pub proof fn live_holder_keeps_the_restart(
    d: DriverView,
    content: Option<Seq<char>>,
    holder: u32,
    elapsed: u128,
)
    requires
        d.stage is ReadingLock,
        restart::foreign_holder(content, d.own_pid) == Some(holder),
    ensures
        ({
            let probing = after_event(d, EventView::LockRead { content });
            let end = after_event(probing, EventView::Probed { alive: true, elapsed });
            &&& pending(d) == ActionView::ReadLock
            &&& pending(probing) == (ActionView::Probe { pid: holder })
            &&& pending(end) == (ActionView::Exit { exit: ExitView::LockHeld })
            &&& exit_code(ExitView::LockHeld) == 0
        }),
{
}

/// A driver that has exited stays so.
pub proof fn exit_is_final(d: DriverView, e: EventView)
    requires
        d.stage is Exited,
    ensures
        after_event(d, e) == d,
{
}

/// A driver waits its budget out, whatever the target: it gives up on a parent that still lives
/// exactly where the look came at or after the budget, and before that it pauses and looks at the
/// parent again.
pub proof fn driver_waits_its_budget_out(d: DriverView, elapsed: u128)
    requires
        d.stage is ProbingParent,
    ensures
        ({
            let next = after_event(d, EventView::Probed { alive: true, elapsed });
            &&& elapsed < d.budget ==> pending(next) == ActionView::Pause
            &&& elapsed < d.budget ==> pending(after_event(next, EventView::Done))
                == (ActionView::Probe { pid: d.parent_pid })
            &&& elapsed < d.budget ==> after_event(next, EventView::Done) == d
            &&& elapsed >= d.budget ==> pending(next) == (ActionView::Exit {
                exit: ExitView::ParentAlive { parent_pid: d.parent_pid, budget: d.budget },
            })
        }),
{
}

/// There is no other way to give up on the parent: not early, not on another event, and not at
/// another point of the run.
pub proof fn giving_up_is_never_early(d: DriverView, e: EventView)
    requires
        !(d.stage is Exited),
    ensures
        (next_stage(d, e) matches StageView::Exited { exit } && exit is ParentAlive) <==> {
            &&& d.stage is ProbingParent
            &&& e matches EventView::Probed { alive, elapsed }
            &&& alive
            &&& elapsed >= d.budget
        },
        next_stage(d, e) == (StageView::Exited { exit: ExitView::NotVerified }) ==> {
            ||| d.stage is ReadingRespawn && (e matches EventView::RespawnRead { elapsed, .. }
                && elapsed >= d.verify_budget)
            ||| d.stage is ProbingRespawn && (e matches EventView::Probed { alive, elapsed }
                && !alive && elapsed >= d.verify_budget)
        },
        next_stage(d, e) == (StageView::Exited { exit: ExitView::NoTarget }) ==> d.target is Unset,
        next_stage(d, e) == (StageView::Exited { exit: ExitView::LockHeld }) ==> d.stage
            is ProbingHolder && (e matches EventView::Probed { alive, .. } && alive),
        (next_stage(d, e) matches StageView::Exited { exit } && exit is LaunchFailed) ==> d.stage
            is Launching && (e matches EventView::Launched { result } && result is Err),
{
}

/// The start of the seat: by its service where it runs under launchd, else by its script. Without a
/// target there is none, and the driver ends.
pub proof fn seat_is_started_by_its_target(d: DriverView, elapsed: u128)
    requires
        d.stage is ProbingParent,
    ensures
        ({
            let next = pending(after_event(d, EventView::Probed { alive: false, elapsed }));
            &&& d.target matches restart::TargetView::Launchd { uid, label } ==> next
                == (ActionView::Kickstart { service: "gui/"@ + uid + seq!['/'] + label })
            &&& d.target matches restart::TargetView::Script(path) ==> next
                == (ActionView::RunScript { script: path })
            &&& d.target is Unset ==> next == (ActionView::Exit { exit: ExitView::NoTarget })
        }),
{
    if let restart::TargetView::Launchd { uid, label } = d.target {
        restart::service_names_user_and_label(uid, label);
    }
}

/// A driver begins with the lock: it stands back only for another process that the lock file names
/// and that lives, and else writes the lock itself and looks at the parent.
pub proof fn lock_is_taken_from_the_dead(
    d: DriverView,
    content: Option<Seq<char>>,
    elapsed: u128,
)
    requires
        d.stage is ReadingLock,
    ensures
        ({
            let read = after_event(d, EventView::LockRead { content });
            let holder = restart::foreign_holder(content, d.own_pid);
            let dead = after_event(read, EventView::Probed { alive: false, elapsed });
            let free = if holder is Some {
                dead
            } else {
                read
            };
            &&& pending(d) == ActionView::ReadLock
            &&& holder matches Some(pid) ==> pending(read) == (ActionView::Probe { pid })
            &&& pending(free) == (ActionView::WriteLock {
                line: numeral::decimal(d.own_pid as nat).push('\n'),
            })
            &&& pending(after_event(free, EventView::Done)) == (ActionView::Probe {
                pid: d.parent_pid,
            })
            &&& after_event(free, EventView::Done).stage is ProbingParent
        }),
{
    restart::files_say(d.own_pid, 0, 0, 0);
}

/// What a launch leads to: a look for the restarted seat, or the end with the reason of the
/// failure.
pub proof fn launch_leads_to_a_look(d: DriverView, reason: Seq<char>)
    requires
        d.stage is Launching,
    ensures
        ({
            let next = pending(after_event(d, EventView::Launched { result: Ok(()) }));
            &&& d.target matches restart::TargetView::Launchd { uid, label } ==> next
                == (ActionView::ReadJob { service: "gui/"@ + uid + seq!['/'] + label })
            &&& !(d.target is Launchd) ==> next == ActionView::ReadPidFile
        }),
        pending(after_event(d, EventView::Launched { result: Err(reason) })) == (ActionView::Exit {
            exit: ExitView::LaunchFailed { reason },
        }),
        after_event(d, EventView::Launched { result: Ok(()) }).stage is ReadingRespawn,
{
    if let restart::TargetView::Launchd { uid, label } = d.target {
        restart::service_names_user_and_label(uid, label);
    }
}

/// The pid of a restarted seat: under launchd the one that its job shows, and else the one in its
/// pid file, unless that is the old daemon's.
pub proof fn seat_shows_its_pid(
    target: restart::TargetView,
    content: Seq<char>,
    parent_pid: u32,
    pid: u32,
)
    ensures
        target is Launchd ==> respawn_candidate(target, Some(content), parent_pid)
            == restart::first_line_pid(content, 0),
        target is Script ==> (respawn_candidate(target, Some(content), parent_pid) == Some(pid)
            <==> restart::pid_file_pid(content) == Some(pid) && pid != parent_pid),
        target is Unset ==> respawn_candidate(target, Some(content), parent_pid) is None,
        respawn_candidate(target, None, parent_pid) is None,
{
}

/// A look for the restarted seat: a pid that shows is probed; while none does, or the one that does
/// is dead, the driver pauses and looks again, until its budget is over.
pub proof fn looks_go_on_until_the_budget(
    d: DriverView,
    content: Option<Seq<char>>,
    elapsed: u128,
)
    ensures
        d.stage is ReadingRespawn ==> ({
            let next = after_event(d, EventView::RespawnRead { content, elapsed });
            let shown = respawn_candidate(d.target, content, d.parent_pid);
            &&& shown matches Some(pid) ==> pending(next) == (ActionView::Probe { pid })
                && next.stage is ProbingRespawn
            &&& shown is None && elapsed < d.verify_budget ==> pending(next) == ActionView::Pause
                && after_event(next, EventView::Done) == d
            &&& shown is None && elapsed >= d.verify_budget ==> pending(next) == (ActionView::Exit {
                exit: ExitView::NotVerified,
            })
        }),
        d.stage is ProbingRespawn ==> ({
            let next = after_event(d, EventView::Probed { alive: false, elapsed });
            &&& elapsed < d.verify_budget ==> pending(next) == ActionView::Pause && after_event(
                next,
                EventView::Done,
            ).stage is ReadingRespawn
            &&& elapsed >= d.verify_budget ==> pending(next) == (ActionView::Exit {
                exit: ExitView::NotVerified,
            })
        }),
{
}

/// A pid that lives is the restarted seat: the receipt names it and the parent, and the driver ends
/// well.
pub proof fn live_pid_ends_the_restart(d: DriverView, pid: u32, elapsed: u128)
    requires
        d.stage == (StageView::ProbingRespawn { pid }),
    ensures
        ({
            let seen = after_event(d, EventView::Probed { alive: true, elapsed });
            &&& pending(d) == (ActionView::Probe { pid })
            &&& pending(seen) == (ActionView::WriteReceipt {
                parent_pid: d.parent_pid,
                new_pid: pid,
            })
            &&& pending(after_event(seen, EventView::Done)) == (ActionView::Exit {
                exit: ExitView::Respawned { parent_pid: d.parent_pid, new_pid: pid },
            })
        }),
{
}

/// `e` tells what came of the action that the driver waits for.
pub open spec fn answers(e: EventView, action: ActionView) -> bool {
    match action {
        ActionView::ReadLock => e is LockRead,
        ActionView::Probe { .. } => e is Probed,
        ActionView::WriteLock { .. } => e is Done,
        ActionView::Pause => e is Done,
        ActionView::Kickstart { .. } => e is Launched,
        ActionView::RunScript { .. } => e is Launched,
        ActionView::ReadJob { .. } => e is RespawnRead,
        ActionView::ReadPidFile => e is RespawnRead,
        ActionView::WriteReceipt { .. } => e is Done,
        ActionView::Exit { .. } => false,
    }
}

/// Only an answer to the pending action moves a driver, and every such answer does; what it was
/// told at its start stays as it is.
pub proof fn only_answers_move_a_driver(d: DriverView, e: EventView)
    requires
        sound(d),
    ensures
        !answers(e, pending(d)) ==> after_event(d, e) == d,
        answers(e, pending(d)) ==> after_event(d, e).stage != d.stage,
        pending(d) is Exit <==> d.stage is Exited,
        after_event(d, e) == (DriverView { stage: after_event(d, e).stage, ..d }),
{
}

/// The exit codes and the lines that exits are logged with, word for word.
pub proof fn exits_say(parent_pid: u32, new_pid: u32, budget: u128, reason: Seq<char>)
    ensures
        exit_code(ExitView::LockHeld) == 0,
        exit_code(ExitView::ParentAlive { parent_pid, budget }) == 1,
        exit_code(ExitView::NoTarget) == 1,
        exit_code(ExitView::LaunchFailed { reason }) == 1,
        exit_code(ExitView::NotVerified) == 1,
        exit_code(ExitView::Respawned { parent_pid, new_pid }) == 0,
        exit_text(ExitView::LockHeld) == "restart-driver: another driver holds "@
            + "restart-driver.pid"@ + " \u{2014} exiting without respawn"@,
        exit_text(ExitView::ParentAlive { parent_pid, budget }) == "restart-driver: parent "@
            + numeral::decimal(parent_pid as nat) + " still alive after "@ + numeral::decimal(
            budget as nat / 1_000_000_000,
        ) + "s \u{2014} giving up (seat stays up; no respawn)"@,
        exit_text(ExitView::NoTarget)
            == "restart-driver: no respawn target in argv \u{2014} nothing to do"@,
        exit_text(ExitView::LaunchFailed { reason }) == "restart-driver: respawn failed \u{2014} "@
            + reason,
        exit_text(ExitView::NotVerified)
            == "restart-driver: respawn failed \u{2014} no live respawned pid within verify budget"@,
        exit_text(ExitView::Respawned { parent_pid, new_pid }) == "restart-driver: respawned as pid "@
            + numeral::decimal(new_pid as nat) + " (was "@ + numeral::decimal(parent_pid as nat)
            + ")"@,
{
}

/// The driver's times: two minutes for the parent, ten seconds for the seat, half a second between
/// two looks.
pub proof fn driver_times()
    ensures
        PARENT_EXIT_BUDGET == 120 * 1_000_000_000,
        RESPAWN_VERIFY_WAIT == 10 * 1_000_000_000,
        POLL_INTERVAL == 500 * 1_000_000,
        NANOS_PER_SEC == 1_000_000_000,
{
}

proof fn runs_join(d: DriverView, a: Seq<EventView>, b: Seq<EventView>)
    ensures
        after_run(d, a + b) == after_run(after_run(d, a), b),
    decreases b.len(),
{
    if b.len() == 0 {
        assert(a + b =~= a);
    } else {
        runs_join(d, a, b.drop_last());
        assert((a + b).drop_last() =~= a + b.drop_last());
    }
}

proof fn run_of_one(d: DriverView, e: EventView)
    ensures
        after_run(d, seq![e]) == after_event(d, e),
{
    reveal_with_fuel(after_run, 2);
    assert(seq![e].drop_last() =~= Seq::<EventView>::empty());
}

proof fn run_of_two(d: DriverView, e: EventView, f: EventView)
    ensures
        after_run(d, seq![e, f]) == after_event(after_event(d, e), f),
{
    assert(seq![e, f].drop_last() =~= seq![e]);
    run_of_one(d, e);
}

proof fn run_of_three(d: DriverView, e: EventView, f: EventView, g: EventView)
    ensures
        after_run(d, seq![e, f, g]) == after_event(after_event(after_event(d, e), f), g),
{
    assert(seq![e, f, g].drop_last() =~= seq![e, f]);
    run_of_two(d, e, f);
}

/// Looks at a parent that lives, each followed by a pause.
pub open spec fn parent_looks(elapsed: Seq<u128>) -> Seq<EventView>
    decreases elapsed.len(),
{
    if elapsed.len() == 0 {
        Seq::empty()
    } else {
        parent_looks(elapsed.drop_last()) + seq![
            EventView::Probed { alive: true, elapsed: elapsed.last() },
            EventView::Done,
        ]
    }
}

/// Looks for a seat that shows no pid, each followed by a pause.
pub open spec fn seat_looks(elapsed: Seq<u128>) -> Seq<EventView>
    decreases elapsed.len(),
{
    if elapsed.len() == 0 {
        Seq::empty()
    } else {
        seat_looks(elapsed.drop_last()) + seq![
            EventView::RespawnRead { content: None, elapsed: elapsed.last() },
            EventView::Done,
        ]
    }
}

proof fn parent_looks_change_nothing(d: DriverView, elapsed: Seq<u128>)
    requires
        d.stage is ProbingParent,
        forall|i: int| 0 <= i < elapsed.len() ==> #[trigger] elapsed[i] < d.budget,
    ensures
        after_run(d, parent_looks(elapsed)) == d,
    decreases elapsed.len(),
{
    if elapsed.len() > 0 {
        let init = elapsed.drop_last();
        assert forall|i: int| 0 <= i < init.len() implies #[trigger] init[i] < d.budget by {
            assert(init[i] == elapsed[i]);
        }
        parent_looks_change_nothing(d, init);
        let look = EventView::Probed { alive: true, elapsed: elapsed.last() };
        assert(elapsed[elapsed.len() - 1] < d.budget);
        runs_join(d, parent_looks(init), seq![look, EventView::Done]);
        assert(seq![look, EventView::Done] =~= seq![look] + seq![EventView::Done]);
        runs_join(d, seq![look], seq![EventView::Done]);
        run_of_one(d, look);
        run_of_one(after_event(d, look), EventView::Done);
    }
}

proof fn seat_looks_change_nothing(d: DriverView, elapsed: Seq<u128>)
    requires
        d.stage is ReadingRespawn,
        forall|i: int| 0 <= i < elapsed.len() ==> #[trigger] elapsed[i] < d.verify_budget,
    ensures
        after_run(d, seat_looks(elapsed)) == d,
    decreases elapsed.len(),
{
    if elapsed.len() > 0 {
        let init = elapsed.drop_last();
        assert forall|i: int| 0 <= i < init.len() implies #[trigger] init[i] < d.verify_budget by {
            assert(init[i] == elapsed[i]);
        }
        seat_looks_change_nothing(d, init);
        let look = EventView::RespawnRead { content: None, elapsed: elapsed.last() };
        assert(elapsed[elapsed.len() - 1] < d.verify_budget);
        runs_join(d, seat_looks(init), seq![look, EventView::Done]);
        assert(seq![look, EventView::Done] =~= seq![look] + seq![EventView::Done]);
        runs_join(d, seq![look], seq![EventView::Done]);
        run_of_one(d, look);
        run_of_one(after_event(d, look), EventView::Done);
    }
}

/// A parent that goes within the budget is always followed by a start: however often it was seen
/// alive before that, the look that finds it gone leads to the launch of the target.
pub proof fn parent_that_goes_is_followed(d: DriverView, looks: Seq<u128>, gone: u128)
    requires
        d.stage is ProbingParent,
        !(d.target is Unset),
        forall|i: int| 0 <= i < looks.len() ==> #[trigger] looks[i] < d.budget,
    ensures
        ({
            let end = after_run(
                d,
                parent_looks(looks) + seq![EventView::Probed { alive: false, elapsed: gone }],
            );
            &&& end.stage is Launching
            &&& pending(end) is Kickstart || pending(end) is RunScript
        }),
{
    let last = EventView::Probed { alive: false, elapsed: gone };
    parent_looks_change_nothing(d, looks);
    runs_join(d, parent_looks(looks), seq![last]);
    run_of_one(d, last);
}

/// A restart runs through: from a free lock, over a parent that goes and a launch that works, to a
/// seat that shows a pid which lives, however often either was looked for in vain within its
/// budget. It ends with code zero and names both pids.
pub proof fn restart_runs_through(
    d: DriverView,
    lock: Option<Seq<char>>,
    looks: Seq<u128>,
    gone: u128,
    misses: Seq<u128>,
    shown: Option<Seq<char>>,
    pid: u32,
    seen: u128,
)
    requires
        d.stage is ReadingLock,
        !(d.target is Unset),
        restart::foreign_holder(lock, d.own_pid) is None,
        forall|i: int| 0 <= i < looks.len() ==> #[trigger] looks[i] < d.budget,
        forall|i: int| 0 <= i < misses.len() ==> #[trigger] misses[i] < d.verify_budget,
        respawn_candidate(d.target, shown, d.parent_pid) == Some(pid),
    ensures
        ({
            let start = seq![EventView::LockRead { content: lock }, EventView::Done];
            let launch = seq![
                EventView::Probed { alive: false, elapsed: gone },
                EventView::Launched { result: Ok(()) },
            ];
            let end = seq![
                EventView::RespawnRead { content: shown, elapsed: seen },
                EventView::Probed { alive: true, elapsed: seen },
                EventView::Done,
            ];
            let run = start + parent_looks(looks) + launch + seat_looks(misses) + end;
            &&& pending(after_run(d, run)) == (ActionView::Exit {
                exit: ExitView::Respawned { parent_pid: d.parent_pid, new_pid: pid },
            })
            &&& exit_code(ExitView::Respawned { parent_pid: d.parent_pid, new_pid: pid }) == 0
        }),
{
    let start = seq![EventView::LockRead { content: lock }, EventView::Done];
    let launch = seq![
        EventView::Probed { alive: false, elapsed: gone },
        EventView::Launched { result: Ok(()) },
    ];
    let end = seq![
        EventView::RespawnRead { content: shown, elapsed: seen },
        EventView::Probed { alive: true, elapsed: seen },
        EventView::Done,
    ];
    let waiting = DriverView { stage: StageView::ProbingParent, ..d };
    let looking = DriverView { stage: StageView::ReadingRespawn, ..d };
    run_of_two(d, start[0], start[1]);
    parent_looks_change_nothing(waiting, looks);
    runs_join(d, start, parent_looks(looks));
    run_of_two(waiting, launch[0], launch[1]);
    runs_join(d, start + parent_looks(looks), launch);
    seat_looks_change_nothing(looking, misses);
    runs_join(d, start + parent_looks(looks) + launch, seat_looks(misses));
    run_of_three(looking, end[0], end[1], end[2]);
    runs_join(d, start + parent_looks(looks) + launch + seat_looks(misses), end);
}

/// Exits, events and actions are seen by what they hold.
pub proof fn exchanges_are_seen_whole(exit: DriverExit, event: DriverEvent, action: DriverAction)
    ensures
        exit is LockHeld <==> exit@ is LockHeld,
        exit matches DriverExit::ParentAlive { parent_pid, budget } ==> exit@
            == (ExitView::ParentAlive { parent_pid, budget }),
        exit is NoTarget <==> exit@ is NoTarget,
        exit matches DriverExit::LaunchFailed { reason } ==> exit@ == (ExitView::LaunchFailed {
            reason: reason@,
        }),
        exit is NotVerified <==> exit@ is NotVerified,
        exit matches DriverExit::Respawned { parent_pid, new_pid } ==> exit@
            == (ExitView::Respawned { parent_pid, new_pid }),
        event matches DriverEvent::LockRead { content } ==> event@ == (EventView::LockRead {
            content: text::option_text(content),
        }),
        event matches DriverEvent::Probed { alive, elapsed } ==> event@ == (EventView::Probed {
            alive,
            elapsed,
        }),
        event matches DriverEvent::Launched { result: Ok(()) } ==> event@ == (EventView::Launched {
            result: Ok(()),
        }),
        event matches DriverEvent::Launched { result: Err(e) } ==> event@ == (EventView::Launched {
            result: Err(e@),
        }),
        event matches DriverEvent::RespawnRead { content, elapsed } ==> event@
            == (EventView::RespawnRead { content: text::option_text(content), elapsed }),
        event is Done <==> event@ is Done,
        action is ReadLock <==> action@ is ReadLock,
        action matches DriverAction::Probe { pid } ==> action@ == (ActionView::Probe { pid }),
        action matches DriverAction::WriteLock { line } ==> action@ == (ActionView::WriteLock {
            line: line@,
        }),
        action is Pause <==> action@ is Pause,
        action matches DriverAction::Kickstart { service } ==> action@ == (ActionView::Kickstart {
            service: service@,
        }),
        action matches DriverAction::RunScript { script } ==> action@ == (ActionView::RunScript {
            script: script@,
        }),
        action matches DriverAction::ReadJob { service } ==> action@ == (ActionView::ReadJob {
            service: service@,
        }),
        action is ReadPidFile <==> action@ is ReadPidFile,
        action matches DriverAction::WriteReceipt { parent_pid, new_pid } ==> action@
            == (ActionView::WriteReceipt { parent_pid, new_pid }),
        action matches DriverAction::Exit { exit } ==> action@ == (ActionView::Exit {
            exit: exit@,
        }),
{
}

} // verus!
