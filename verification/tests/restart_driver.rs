use buzz_acp::restart::{kickstart_outcome, script_outcome, RespawnTarget};
use buzz_acp::restart_driver::{
    DriverAction, DriverEvent, DriverExit, RestartDriver, PARENT_EXIT_BUDGET, RESPAWN_VERIFY_WAIT,
};

const MS: u128 = 1_000_000;

/// A seat directory and its processes, in memory.
struct World {
    lock: Option<String>,
    receipt: Option<(u32, u32)>,
    pid_file: Option<String>,
    job: Option<String>,
    /// Pid and the time until which it lives.
    processes: Vec<(u32, u128)>,
    /// What the start script writes into the pid file.
    script_writes: Option<String>,
    clock: u128,
    poll: u128,
    launches: Vec<String>,
    receipts: usize,
    kickstart: Result<(bool, Option<i32>), String>,
}

const FOREVER: u128 = u128::MAX;

impl World {
    fn new(processes: Vec<(u32, u128)>) -> Self {
        World {
            lock: None,
            receipt: None,
            pid_file: None,
            job: None,
            processes,
            script_writes: None,
            clock: 0,
            poll: 50 * MS,
            launches: vec![],
            receipts: 0,
            kickstart: Ok((true, Some(0))),
        }
    }

    fn alive(&self, pid: u32) -> bool {
        self.processes.iter().any(|(p, until)| *p == pid && self.clock < *until)
    }

    fn run(&mut self, mut driver: RestartDriver) -> DriverExit {
        let mut since = self.clock;
        let mut owns_lock = false;
        for _ in 0..100_000 {
            let elapsed = self.clock - since;
            let event = match driver.action() {
                DriverAction::ReadLock => DriverEvent::LockRead { content: self.lock.clone() },
                DriverAction::Probe { pid } => {
                    DriverEvent::Probed { alive: self.alive(pid), elapsed }
                }
                DriverAction::WriteLock { line } => {
                    self.lock = Some(line);
                    owns_lock = true;
                    since = self.clock;
                    DriverEvent::Done
                }
                DriverAction::Pause => {
                    self.clock += self.poll;
                    DriverEvent::Done
                }
                DriverAction::Kickstart { service } => {
                    self.launches.push(service);
                    since = self.clock;
                    DriverEvent::Launched { result: kickstart_outcome(self.kickstart.clone()) }
                }
                DriverAction::RunScript { script } => {
                    self.launches.push(script.clone());
                    let found = script != "/missing";
                    if found && self.script_writes.is_some() {
                        self.pid_file = self.script_writes.clone();
                    }
                    since = self.clock;
                    DriverEvent::Launched { result: script_outcome(&script, found, Ok(())) }
                }
                DriverAction::ReadJob { service } => {
                    assert_eq!(service, "gui/501/seat");
                    DriverEvent::RespawnRead { content: self.job.clone(), elapsed }
                }
                DriverAction::ReadPidFile => {
                    DriverEvent::RespawnRead { content: self.pid_file.clone(), elapsed }
                }
                DriverAction::WriteReceipt { parent_pid, new_pid } => {
                    self.receipt = Some((parent_pid, new_pid));
                    self.receipts += 1;
                    DriverEvent::Done
                }
                DriverAction::Exit { exit } => {
                    if owns_lock {
                        self.lock = None;
                    }
                    let respawned = matches!(exit, DriverExit::Respawned { .. });
                    assert_eq!(self.receipts, if respawned { 1 } else { 0 });
                    return exit;
                }
            };
            driver = driver.step(event);
        }
        panic!("the driver did not exit");
    }
}

fn script_driver(parent: u32, script: &str, budget: u128, verify: u128) -> RestartDriver {
    RestartDriver::new(parent, 7000, RespawnTarget::Script(script.to_string()), budget, verify)
}

fn launchd() -> RespawnTarget {
    RespawnTarget::Launchd { uid: "501".to_string(), label: "seat".to_string() }
}

#[test]
fn lock_blocks_only_live_foreign_driver() {
    // Own pid in the lock: not blocking.
    let mut w = World::new(vec![(100, 0), (200, FOREVER)]);
    w.lock = Some("7000\n".to_string());
    w.script_writes = Some("200\n".to_string());
    assert_eq!(w.run(script_driver(100, "/s.sh", MS, MS)).code(), 0);
    assert_eq!(w.launches.len(), 1);
    assert_eq!(w.lock, None);
    // A live foreign pid: blocking, and the lock is left alone.
    let mut w = World::new(vec![(300, FOREVER)]);
    w.lock = Some("300\n".to_string());
    let exit = w.run(script_driver(100, "/s.sh", MS, MS));
    assert!(matches!(exit, DriverExit::LockHeld));
    assert_eq!(exit.code(), 0);
    assert_eq!(
        exit.message(),
        "restart-driver: another driver holds restart-driver.pid — exiting without respawn"
    );
    assert_eq!(w.lock.as_deref(), Some("300\n"));
    assert!(w.launches.is_empty());
    // A dead foreign pid: not blocking.
    let mut w = World::new(vec![(300, 0), (200, FOREVER)]);
    w.lock = Some("300\n".to_string());
    w.script_writes = Some("200\n".to_string());
    assert!(matches!(w.run(script_driver(100, "/s.sh", MS, MS)), DriverExit::Respawned { .. }));
}

#[test]
fn driver_poll_respawn_verify_end_to_end_script_mode() {
    let mut w = World::new(vec![(100, 2000 * MS), (200, FOREVER)]);
    w.pid_file = Some("100\n".to_string());
    w.script_writes = Some("200\n".to_string());
    let exit = w.run(script_driver(100, "/start.sh", 10_000 * MS, 10_000 * MS));
    assert_eq!(exit.code(), 0, "driver should succeed");
    assert_eq!(exit.message(), "restart-driver: respawned as pid 200 (was 100)");
    assert_eq!(w.receipt, Some((100, 200)));
    assert_eq!(w.launches, vec!["/start.sh"]);
    assert_eq!(w.clock, 2000 * MS);
    assert_eq!(w.lock, None);
}

#[test]
fn driver_gives_up_when_parent_never_exits() {
    let mut w = World::new(vec![(100, FOREVER)]);
    let driver = RestartDriver::new(100, 7000, RespawnTarget::Unset, 300 * MS, 10_000 * MS);
    let exit = w.run(driver);
    assert_eq!(exit.code(), 1, "bound hit with parent alive must give up");
    assert_eq!(w.receipt, None, "no receipt on give-up");
    assert_eq!(w.clock, 300 * MS);
    assert!(w.launches.is_empty());
    assert_eq!(
        exit.message(),
        "restart-driver: parent 100 still alive after 0s — giving up (seat stays up; no respawn)"
    );
    let exit = DriverExit::ParentAlive { parent_pid: 5, budget: PARENT_EXIT_BUDGET };
    assert!(exit.message().contains("still alive after 120s"));
}

#[test]
fn driver_verify_budget_expiry_reports_failure_no_receipt() {
    // The start script never writes a live pid.
    let mut w = World::new(vec![(100, 1000 * MS)]);
    w.script_writes = Some("1\n".to_string());
    let exit = w.run(script_driver(100, "/start.sh", 5000 * MS, 400 * MS));
    assert_eq!(exit.code(), 1, "no live respawn pid within budget must fail");
    assert_eq!(w.receipt, None, "no receipt on verify failure");
    assert_eq!(w.launches.len(), 1);
    assert_eq!(w.clock, 1400 * MS);
    assert_eq!(
        exit.message(),
        "restart-driver: respawn failed — no live respawned pid within verify budget"
    );
}

#[test]
fn stale_pid_file_is_not_the_respawn() {
    // The old daemon's pid stays in the file until the start script writes a new one.
    let mut driver = script_driver(100, "/start.sh", 5000 * MS, 400 * MS)
        .step(DriverEvent::LockRead { content: None })
        .step(DriverEvent::Done)
        .step(DriverEvent::Probed { alive: false, elapsed: 0 })
        .step(DriverEvent::Launched { result: Ok(()) })
        .step(DriverEvent::RespawnRead { content: Some("100\n".to_string()), elapsed: 0 });
    assert!(matches!(driver.action(), DriverAction::Pause));
    driver = driver
        .step(DriverEvent::Done)
        .step(DriverEvent::RespawnRead { content: Some("101\n".to_string()), elapsed: 1 });
    assert!(matches!(driver.action(), DriverAction::Probe { pid: 101 }));
}

#[test]
fn launchd_mode_reads_the_job() {
    let mut w = World::new(vec![(200, FOREVER)]);
    w.job = Some("gui/501/seat = {\n\tpid = 200\n}\n".to_string());
    let driver = RestartDriver::new(100, 7000, launchd(), PARENT_EXIT_BUDGET, RESPAWN_VERIFY_WAIT);
    assert!(matches!(w.run(driver), DriverExit::Respawned { parent_pid: 100, new_pid: 200 }));
    assert_eq!(w.launches, vec!["gui/501/seat"]);
    // A job that never shows a pid ends the driver when its budget is over.
    let mut w = World::new(vec![]);
    w.job = Some("state = waiting\n".to_string());
    let driver = RestartDriver::new(100, 7000, launchd(), PARENT_EXIT_BUDGET, RESPAWN_VERIFY_WAIT);
    assert!(matches!(w.run(driver), DriverExit::NotVerified));
    assert_eq!((w.clock, w.launches.len()), (RESPAWN_VERIFY_WAIT, 1));
}

#[test]
fn launch_failure_ends_the_driver() {
    let mut w = World::new(vec![]);
    w.kickstart = Ok((false, Some(3)));
    let exit = w.run(RestartDriver::new(100, 7000, launchd(), MS, MS));
    assert_eq!(exit.code(), 1);
    assert_eq!(exit.message(), "restart-driver: respawn failed — launchctl kickstart exited 3");
    let exit = World::new(vec![]).run(script_driver(100, "/missing", MS, MS));
    assert_eq!(exit.message(), "restart-driver: respawn failed — start script not found: /missing");
    let exit = World::new(vec![]).run(RestartDriver::new(100, 7000, RespawnTarget::Unset, MS, MS));
    assert_eq!(exit.code(), 1);
    assert_eq!(
        exit.message(),
        "restart-driver: no respawn target in argv — nothing to do"
    );
}

#[test]
fn stray_events_do_not_move_a_driver() {
    let mut driver = script_driver(100, "/s.sh", MS, MS);
    driver = driver.step(DriverEvent::Launched { result: Ok(()) });
    driver = driver.step(DriverEvent::Probed { alive: false, elapsed: 0 });
    assert!(matches!(driver.action(), DriverAction::ReadLock));
    let exit = RestartDriver::new(100, 7000, RespawnTarget::Unset, MS, MS)
        .step(DriverEvent::LockRead { content: None })
        .step(DriverEvent::Done)
        .step(DriverEvent::Probed { alive: false, elapsed: 0 })
        .step(DriverEvent::Probed { alive: true, elapsed: 0 });
    assert!(matches!(exit.action(), DriverAction::Exit { exit: DriverExit::NoTarget }));
}
