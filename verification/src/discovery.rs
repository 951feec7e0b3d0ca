//! Waiting for a removed controller to show up again: if BlueZ already
//! knows it, done; else scan on the default adapter, look again every
//! second, tell the user how many seconds are left whenever that number
//! changes, and stop the scan when the device appears or time runs out.
//!
//! The calls, the clock and the sleeping belong to the program around this
//! crate; `Discovery` decides what comes next from each answer.
use vstd::prelude::*;

verus! {

/// Nanoseconds in a second.
pub const NANOS_PER_SEC: u128 = 1_000_000_000;

/// One more than the largest number of nanoseconds a `Duration` holds.
pub open spec fn duration_bound() -> int {
    0x1_0000_0000_0000_0000int * 1_000_000_000int
}

/// Whole seconds left before `timeout`, none once it has passed.
pub open spec fn remaining_secs(timeout_ns: u128, elapsed_ns: u128) -> int {
    if elapsed_ns < timeout_ns {
        (timeout_ns - elapsed_ns) / 1_000_000_000
    } else {
        0
    }
}

/// Where a discovery stands.
#[derive(Debug, Clone, Copy, PartialEq, Eq, Structural)]
pub enum DiscoveryPhase {
    /// Asked whether BlueZ already knows the device.
    CheckKnown,
    /// Asked for the default adapter.
    FindAdapter,
    /// Asked the adapter to start scanning.
    Starting,
    /// Scanning; asked whether the device has appeared.
    Polling,
    /// Asked the adapter to stop scanning; the run then ends with this answer.
    Stopping(bool),
    /// Over, with this answer.
    Finished(bool),
    /// Over because a call failed; a scan that was started is left running.
    Failed,
}

/// An answer from the program around the crate.
#[derive(Debug, Clone, Copy, PartialEq, Eq, Structural)]
pub enum DiscoveryEvent {
    /// Whether looking the device up found it, before any scan.
    Known(bool),
    /// Whether there is an adapter to scan with.
    Adapter(bool),
    /// The scan has started.
    ScanStarted,
    /// Whether looking the device up found it, and the time since the scan
    /// started, in nanoseconds.
    Polled(bool, u128),
    /// The scan has stopped.
    ScanStopped,
    /// The last call failed.
    CallFailed,
}

/// Work for the program around the crate.
#[derive(Debug, Clone, Copy, PartialEq, Eq, Structural)]
pub enum DiscoveryCommand {
    /// Look the device up and answer `Known`.
    CheckKnown,
    /// Look for the default adapter and answer `Adapter`.
    FindAdapter,
    /// Start scanning and answer `ScanStarted`.
    StartScan,
    /// Look the device up now and answer `Polled`.
    Poll,
    /// Print the seconds left if given, sleep one second, then look the
    /// device up and answer `Polled`.
    Wait(Option<u64>),
    /// Stop scanning and answer `ScanStopped`.
    StopScan,
    /// The discovery is over: whether the device was found.
    Finish(bool),
    /// The discovery is over with the failed call's error; a scan that was
    /// started is not stopped.
    Abort,
}

/// The phase in which an event is the expected answer.
pub open spec fn answers(phase: DiscoveryPhase, event: DiscoveryEvent) -> bool {
    match event {
        DiscoveryEvent::Known(_) => phase is CheckKnown,
        DiscoveryEvent::Adapter(_) => phase is FindAdapter,
        DiscoveryEvent::ScanStarted => phase is Starting,
        DiscoveryEvent::Polled(_, _) => phase is Polling,
        DiscoveryEvent::ScanStopped => phase is Stopping,
        DiscoveryEvent::CallFailed => !(phase is Finished || phase is Failed),
    }
}

/// A scan has been started and not yet stopped.
pub open spec fn scanning(phase: DiscoveryPhase) -> bool {
    phase is Polling || phase is Stopping
}

/// What a discovery does on an answer: its next phase, the last number of
/// seconds it has told the user, and the next command.
pub open spec fn discovery_step(
    phase: DiscoveryPhase,
    last_reported: Option<u64>,
    timeout_ns: u128,
    event: DiscoveryEvent,
) -> (DiscoveryPhase, Option<u64>, DiscoveryCommand) {
    match (phase, event) {
        (DiscoveryPhase::CheckKnown, DiscoveryEvent::Known(found)) => if found {
            (DiscoveryPhase::Finished(true), last_reported, DiscoveryCommand::Finish(true))
        } else {
            (DiscoveryPhase::FindAdapter, last_reported, DiscoveryCommand::FindAdapter)
        },
        (DiscoveryPhase::FindAdapter, DiscoveryEvent::Adapter(present)) => if present {
            (DiscoveryPhase::Starting, last_reported, DiscoveryCommand::StartScan)
        } else {
            (DiscoveryPhase::Finished(false), last_reported, DiscoveryCommand::Finish(false))
        },
        (DiscoveryPhase::Starting, DiscoveryEvent::ScanStarted) => (
            DiscoveryPhase::Polling,
            last_reported,
            DiscoveryCommand::Poll,
        ),
        (DiscoveryPhase::Polling, DiscoveryEvent::Polled(found, elapsed)) => if found {
            (DiscoveryPhase::Stopping(true), last_reported, DiscoveryCommand::StopScan)
        } else if elapsed >= timeout_ns {
            (DiscoveryPhase::Stopping(false), last_reported, DiscoveryCommand::StopScan)
        } else {
            let left = remaining_secs(timeout_ns, elapsed) as u64;
            (
                DiscoveryPhase::Polling,
                Some(left),
                DiscoveryCommand::Wait(
                    if last_reported == Some(left) {
                        None
                    } else {
                        Some(left)
                    },
                ),
            )
        },
        (DiscoveryPhase::Stopping(found), DiscoveryEvent::ScanStopped) => (
            DiscoveryPhase::Finished(found),
            last_reported,
            DiscoveryCommand::Finish(found),
        ),
        (_, DiscoveryEvent::CallFailed) => (
            DiscoveryPhase::Failed,
            last_reported,
            DiscoveryCommand::Abort,
        ),
        _ => (phase, last_reported, DiscoveryCommand::Finish(false)),
    }
}

/// A discovery in progress.
pub struct Discovery {
    timeout_ns: u128,
    last_reported: Option<u64>,
    phase: DiscoveryPhase,
}

impl Discovery {
    pub closed spec fn timeout_spec(&self) -> u128 {
        self.timeout_ns
    }

    pub closed spec fn last_reported_spec(&self) -> Option<u64> {
        self.last_reported
    }

    pub closed spec fn phase_spec(&self) -> DiscoveryPhase {
        self.phase
    }

    /// A discovery that gives up `timeout_ns` nanoseconds after its scan
    /// starts; its first command is to check whether the device is known.
    pub fn new(timeout_ns: u128) -> (r: (Discovery, DiscoveryCommand))
        requires
            timeout_ns < duration_bound(),
        ensures
            r.0.timeout_spec() == timeout_ns,
            r.0.last_reported_spec() is None,
            r.0.phase_spec() == DiscoveryPhase::CheckKnown,
            r.1 == DiscoveryCommand::CheckKnown,
    {
        (
            Discovery { timeout_ns, last_reported: None, phase: DiscoveryPhase::CheckKnown },
            DiscoveryCommand::CheckKnown,
        )
    }

    /// The current phase.
    pub fn phase(&self) -> (p: DiscoveryPhase)
        ensures
            p == self.phase_spec(),
    {
        self.phase
    }

    /// Takes the answer to the last command and gives the next one.
    pub fn next(&mut self, event: DiscoveryEvent) -> (cmd: DiscoveryCommand)
        requires
            answers(old(self).phase_spec(), event),
            old(self).timeout_spec() < duration_bound(),
        ensures
            final(self).timeout_spec() == old(self).timeout_spec(),
            (final(self).phase_spec(), final(self).last_reported_spec(), cmd) == discovery_step(
                old(self).phase_spec(),
                old(self).last_reported_spec(),
                old(self).timeout_spec(),
                event,
            ),
    {
        match (self.phase, event) {
            (DiscoveryPhase::CheckKnown, DiscoveryEvent::Known(found)) => {
                if found {
                    self.phase = DiscoveryPhase::Finished(true);
                    DiscoveryCommand::Finish(true)
                } else {
                    self.phase = DiscoveryPhase::FindAdapter;
                    DiscoveryCommand::FindAdapter
                }
            },
            (DiscoveryPhase::FindAdapter, DiscoveryEvent::Adapter(present)) => {
                if present {
                    self.phase = DiscoveryPhase::Starting;
                    DiscoveryCommand::StartScan
                } else {
                    self.phase = DiscoveryPhase::Finished(false);
                    DiscoveryCommand::Finish(false)
                }
            },
            (DiscoveryPhase::Starting, DiscoveryEvent::ScanStarted) => {
                self.phase = DiscoveryPhase::Polling;
                DiscoveryCommand::Poll
            },
            (DiscoveryPhase::Polling, DiscoveryEvent::Polled(found, elapsed)) => {
                if found {
                    self.phase = DiscoveryPhase::Stopping(true);
                    DiscoveryCommand::StopScan
                } else if elapsed >= self.timeout_ns {
                    self.phase = DiscoveryPhase::Stopping(false);
                    DiscoveryCommand::StopScan
                } else {
                    let left = (self.timeout_ns - elapsed) / NANOS_PER_SEC;
                    assert(left < 0x1_0000_0000_0000_0000) by (nonlinear_arith)
                        requires
                            left == (self.timeout_ns - elapsed) / 1_000_000_000,
                            self.timeout_ns - elapsed < 0x1_0000_0000_0000_0000 * 1_000_000_000,
                    ;
                    let left = left as u64;
                    let report = match self.last_reported {
                        Some(shown) => {
                            if shown == left {
                                None
                            } else {
                                Some(left)
                            }
                        },
                        None => Some(left),
                    };
                    self.last_reported = Some(left);
                    DiscoveryCommand::Wait(report)
                }
            },
            (DiscoveryPhase::Stopping(found), DiscoveryEvent::ScanStopped) => {
                self.phase = DiscoveryPhase::Finished(found);
                DiscoveryCommand::Finish(found)
            },
            (_, DiscoveryEvent::CallFailed) => {
                self.phase = DiscoveryPhase::Failed;
                DiscoveryCommand::Abort
            },
            _ => {
                // `answers` rules out every other pair.
                assert(false);
                DiscoveryCommand::Finish(false)
            },
        }
    }
}

/// A discovery reports the device found only when a lookup found it; a scan
/// once started is stopped before the discovery ends, unless a call fails,
/// which ends the discovery at once; the seconds left are
/// printed only when they differ from the number printed last, and what was
/// printed is remembered.
pub proof fn law_discovery_step(
    phase: DiscoveryPhase,
    last_reported: Option<u64>,
    timeout_ns: u128,
    event: DiscoveryEvent,
)
    requires
        answers(phase, event),
    ensures
        ({
            let (after, reported, cmd) = discovery_step(phase, last_reported, timeout_ns, event);
            &&& after == DiscoveryPhase::Stopping(true) ==> event is Polled && event->Polled_0
            &&& cmd == DiscoveryCommand::Finish(true) ==> event == DiscoveryEvent::Known(true)
                || phase == DiscoveryPhase::Stopping(true)
            &&& cmd is Finish ==> !scanning(after) && after == DiscoveryPhase::Finished(
                cmd->Finish_0,
            )
            &&& scanning(phase) && !scanning(after) ==> event is ScanStopped || event is CallFailed
            &&& event is CallFailed <==> cmd is Abort
            &&& event is CallFailed ==> after is Failed
            &&& (cmd is Wait && cmd->Wait_0 is Some) ==> last_reported != cmd->Wait_0
                && reported == cmd->Wait_0
            &&& cmd == DiscoveryCommand::Wait(None) ==> reported == last_reported
        }),
{
}

/// A poll that finds the device always stops the scan and ends the
/// discovery as found, whatever the time elapsed and whatever was last
/// reported; a poll that does not find it before the timeout waits (telling
/// the seconds left only when they changed), and one at or after the
/// timeout stops the scan and ends the discovery as not found.
pub proof fn law_found_poll_stops(
    last_reported: Option<u64>,
    timeout_ns: u128,
    elapsed_ns: u128,
)
    ensures
        discovery_step(
            DiscoveryPhase::Polling,
            last_reported,
            timeout_ns,
            DiscoveryEvent::Polled(true, elapsed_ns),
        ) == (DiscoveryPhase::Stopping(true), last_reported, DiscoveryCommand::StopScan),
        discovery_step(
            DiscoveryPhase::Stopping(true),
            last_reported,
            timeout_ns,
            DiscoveryEvent::ScanStopped,
        ).2 == DiscoveryCommand::Finish(true),
        elapsed_ns >= timeout_ns ==> discovery_step(
            DiscoveryPhase::Polling,
            last_reported,
            timeout_ns,
            DiscoveryEvent::Polled(false, elapsed_ns),
        ) == (DiscoveryPhase::Stopping(false), last_reported, DiscoveryCommand::StopScan),
        discovery_step(
            DiscoveryPhase::Stopping(false),
            last_reported,
            timeout_ns,
            DiscoveryEvent::ScanStopped,
        ).2 == DiscoveryCommand::Finish(false),
        elapsed_ns < timeout_ns ==> ({
            let (after, reported, cmd) = discovery_step(
                DiscoveryPhase::Polling,
                last_reported,
                timeout_ns,
                DiscoveryEvent::Polled(false, elapsed_ns),
            );
            &&& after == DiscoveryPhase::Polling
            &&& reported == Some(((timeout_ns - elapsed_ns) / 1_000_000_000) as u64)
            &&& cmd == DiscoveryCommand::Wait(
                if last_reported == reported {
                    None
                } else {
                    reported
                },
            )
        }),
{
}

} // verus!
