//! Re-pairing a controller: remove it, find it again, pair, trust and
//! connect it, then give it back its name. Each step is a BlueZ call made
//! by the program around this crate; this module decides, from each answer,
//! which step comes next and how the whole run ends.
use vstd::prelude::*;
use vstd::string::*;
use crate::report::{ErrorMessage, Failure};
use crate::report;

verus! {

/// How long the discovery step scans before giving up, in seconds.
pub const DISCOVERY_TIMEOUT_SECS: u64 = 60;

/// The BlueZ call to make next.
#[derive(Debug, Clone, Copy, PartialEq, Eq, Structural)]
pub enum ReconnectStep {
    /// Remove the device from the adapter; its answer only matters if it fails.
    RemoveDevice,
    /// Scan until the device shows up again or the scan times out.
    Discover,
    Pair,
    /// Mark the device as trusted.
    Trust,
    Connect,
    /// Give the device its former name; its answer is ignored.
    RestoreName,
}

/// The step that follows `step` given its answer, or `None` when the run
/// ends there. `restore` says whether a name is to be given back.
pub open spec fn step_next(step: ReconnectStep, reply: Result<bool, String>, restore: bool) -> Option<
    ReconnectStep,
> {
    match step {
        ReconnectStep::RemoveDevice => match reply {
            Ok(_) => Some(ReconnectStep::Discover),
            Err(_) => None,
        },
        ReconnectStep::Discover => if reply == Ok::<bool, String>(true) {
            Some(ReconnectStep::Pair)
        } else {
            None
        },
        ReconnectStep::Pair => if reply == Ok::<bool, String>(true) {
            Some(ReconnectStep::Trust)
        } else {
            None
        },
        ReconnectStep::Trust => if reply == Ok::<bool, String>(true) {
            Some(ReconnectStep::Connect)
        } else {
            None
        },
        ReconnectStep::Connect => if reply == Ok::<bool, String>(true) && restore {
            Some(ReconnectStep::RestoreName)
        } else {
            None
        },
        ReconnectStep::RestoreName => None,
    }
}

/// The run ends successfully at `step` with this answer.
pub open spec fn step_succeeds(step: ReconnectStep, reply: Result<bool, String>, restore: bool) -> bool {
    match step {
        ReconnectStep::Connect => reply == Ok::<bool, String>(true) && !restore,
        ReconnectStep::RestoreName => true,
        _ => false,
    }
}

/// The kind of failure reported when `step`'s call itself fails.
pub open spec fn step_failure(step: ReconnectStep) -> Failure {
    match step {
        ReconnectStep::RemoveDevice => Failure::Remove,
        ReconnectStep::Discover => Failure::Discover,
        ReconnectStep::Pair => Failure::Pair,
        ReconnectStep::Trust => Failure::Trust,
        ReconnectStep::Connect => Failure::Connect,
        ReconnectStep::RestoreName => Failure::Rename,
    }
}

/// The error a run ends with when `step` answers `reply` and stops it.
pub open spec fn step_error(step: ReconnectStep, reply: Result<bool, String>, e: ErrorMessage) -> bool {
    match reply {
        Err(detail) => report::is_text(e, step_failure(step).prefix_spec() + ": "@ + detail@),
        Ok(_) => match step {
            ReconnectStep::Discover => e is ReconnectNotFound,
            ReconnectStep::Pair => e is ReconnectPairFailed,
            ReconnectStep::Trust => e is ReconnectTrustFailed,
            ReconnectStep::Connect => e is ReconnectConnectFailed,
            _ => false,
        },
    }
}

/// A whole run from `step` on, given the answers in order: whether it ends
/// successfully.
pub open spec fn run_succeeds(step: ReconnectStep, replies: Seq<Result<bool, String>>, restore: bool) -> bool
    decreases replies.len(),
{
    if replies.len() == 0 {
        false
    } else {
        match step_next(step, replies[0], restore) {
            Some(next) => run_succeeds(next, replies.drop_first(), restore),
            None => step_succeeds(step, replies[0], restore),
        }
    }
}

/// A re-pairing in progress.
pub struct Reconnect {
    addr: String,
    name: String,
    step: ReconnectStep,
}

/// What follows an answer: the run goes on, or it is over with this result.
pub enum ReconnectProgress {
    Next(Reconnect),
    Done(Result<(String, bool), ErrorMessage>),
}

impl Reconnect {
    pub closed spec fn addr_spec(&self) -> String {
        self.addr
    }

    pub closed spec fn name_spec(&self) -> String {
        self.name
    }

    pub closed spec fn step_spec(&self) -> ReconnectStep {
        self.step
    }

    /// Whether the run ends by giving the device back a name.
    pub open spec fn restores_name(&self) -> bool {
        self.name_spec()@.len() > 0
    }

    /// A run for `addr` that will give it back `name`; it begins by removing it.
    pub fn start(addr: String, name: String) -> (r: Reconnect)
        ensures
            r.addr_spec() == addr,
            r.name_spec() == name,
            r.step_spec() == ReconnectStep::RemoveDevice,
    {
        Reconnect { addr, name, step: ReconnectStep::RemoveDevice }
    }

    /// The address being re-paired.
    pub fn addr(&self) -> (a: &String)
        ensures
            *a == self.addr_spec(),
    {
        &self.addr
    }

    /// The name to give back at the end.
    pub fn name(&self) -> (n: &String)
        ensures
            *n == self.name_spec(),
    {
        &self.name
    }

    /// The call to make now.
    pub fn step(&self) -> (s: ReconnectStep)
        ensures
            s == self.step_spec(),
    {
        self.step
    }

    /// Takes the answer to the current step: `Ok` with the call's boolean
    /// result, or `Err` with the text of the error it failed with.
    pub fn advance(self, reply: Result<bool, String>) -> (p: ReconnectProgress)
        ensures
            match p {
                ReconnectProgress::Next(r) => {
                    &&& step_next(self.step_spec(), reply, self.restores_name()) == Some(
                        r.step_spec(),
                    )
                    &&& r.addr_spec() == self.addr_spec()
                    &&& r.name_spec() == self.name_spec()
                },
                ReconnectProgress::Done(result) => {
                    &&& step_next(self.step_spec(), reply, self.restores_name()) is None
                    &&& result is Ok <==> step_succeeds(
                        self.step_spec(),
                        reply,
                        self.restores_name(),
                    )
                    &&& result matches Ok(v) ==> v == (self.addr_spec(), true)
                    &&& result matches Err(e) ==> step_error(self.step_spec(), reply, e)
                },
            },
    {
        let restore = !self.name.as_str().is_empty();
        let Reconnect { addr, name, step } = self;
        match step {
            ReconnectStep::RemoveDevice => match reply {
                Ok(_) => ReconnectProgress::Next(
                    Reconnect { addr, name, step: ReconnectStep::Discover },
                ),
                Err(detail) => ReconnectProgress::Done(
                    Err(Failure::Remove.error(detail.as_str())),
                ),
            },
            ReconnectStep::Discover => match reply {
                Ok(true) => ReconnectProgress::Next(
                    Reconnect { addr, name, step: ReconnectStep::Pair },
                ),
                Ok(false) => ReconnectProgress::Done(Err(ErrorMessage::ReconnectNotFound)),
                Err(detail) => ReconnectProgress::Done(
                    Err(Failure::Discover.error(detail.as_str())),
                ),
            },
            ReconnectStep::Pair => match reply {
                Ok(true) => ReconnectProgress::Next(
                    Reconnect { addr, name, step: ReconnectStep::Trust },
                ),
                Ok(false) => ReconnectProgress::Done(Err(ErrorMessage::ReconnectPairFailed)),
                Err(detail) => ReconnectProgress::Done(Err(Failure::Pair.error(detail.as_str()))),
            },
            ReconnectStep::Trust => match reply {
                Ok(true) => ReconnectProgress::Next(
                    Reconnect { addr, name, step: ReconnectStep::Connect },
                ),
                Ok(false) => ReconnectProgress::Done(Err(ErrorMessage::ReconnectTrustFailed)),
                Err(detail) => ReconnectProgress::Done(Err(Failure::Trust.error(detail.as_str()))),
            },
            ReconnectStep::Connect => match reply {
                Ok(true) => {
                    if restore {
                        ReconnectProgress::Next(
                            Reconnect { addr, name, step: ReconnectStep::RestoreName },
                        )
                    } else {
                        ReconnectProgress::Done(Ok((addr, true)))
                    }
                },
                Ok(false) => ReconnectProgress::Done(Err(ErrorMessage::ReconnectConnectFailed)),
                Err(detail) => ReconnectProgress::Done(
                    Err(Failure::Connect.error(detail.as_str())),
                ),
            },
            ReconnectStep::RestoreName => ReconnectProgress::Done(Ok((addr, true))),
        }
    }
}

/// A re-pairing succeeds only if the device was found again and pairing,
/// trusting and connecting each reported success, in that order, after the
/// removal went through.
pub proof fn law_success_needs_every_step(replies: Seq<Result<bool, String>>, restore: bool)
    requires
        run_succeeds(ReconnectStep::RemoveDevice, replies, restore),
    ensures
        replies.len() >= 5,
        replies[0] is Ok,
        replies[1] == Ok::<bool, String>(true),
        replies[2] == Ok::<bool, String>(true),
        replies[3] == Ok::<bool, String>(true),
        replies[4] == Ok::<bool, String>(true),
{
    let r1 = replies.drop_first();
    assert(replies[0] is Ok);
    assert(run_succeeds(ReconnectStep::Discover, r1, restore));
    assert(r1.len() > 0 && r1[0] == Ok::<bool, String>(true));
    let r2 = r1.drop_first();
    assert(run_succeeds(ReconnectStep::Pair, r2, restore));
    assert(r2.len() > 0 && r2[0] == Ok::<bool, String>(true));
    let r3 = r2.drop_first();
    assert(run_succeeds(ReconnectStep::Trust, r3, restore));
    assert(r3.len() > 0 && r3[0] == Ok::<bool, String>(true));
    let r4 = r3.drop_first();
    assert(run_succeeds(ReconnectStep::Connect, r4, restore));
    assert(r4.len() > 0 && r4[0] == Ok::<bool, String>(true));
}

/// When every step from the removal to the connection reports success,
/// the re-pairing succeeds, whatever the renaming at the end answers.
pub proof fn law_every_step_succeeds(replies: Seq<Result<bool, String>>, restore: bool)
    requires
        replies.len() >= 6,
        replies[0] is Ok,
        replies[1] == Ok::<bool, String>(true),
        replies[2] == Ok::<bool, String>(true),
        replies[3] == Ok::<bool, String>(true),
        replies[4] == Ok::<bool, String>(true),
    ensures
        run_succeeds(ReconnectStep::RemoveDevice, replies, restore),
{
    let r1 = replies.drop_first();
    let r2 = r1.drop_first();
    let r3 = r2.drop_first();
    let r4 = r3.drop_first();
    let r5 = r4.drop_first();
    assert(r4[0] == replies[4]);
    assert(r3[0] == replies[3]);
    assert(r2[0] == replies[2]);
    assert(r1[0] == replies[1]);
    if restore {
        assert(r5.len() > 0);
        assert(run_succeeds(ReconnectStep::RestoreName, r5, restore));
    }
    assert(run_succeeds(ReconnectStep::Connect, r4, restore));
    assert(run_succeeds(ReconnectStep::Trust, r3, restore));
    assert(run_succeeds(ReconnectStep::Pair, r2, restore));
    assert(run_succeeds(ReconnectStep::Discover, r1, restore));
}

/// A failed call at any step but the last ends the run with an error.
pub proof fn law_call_error_ends_run(step: ReconnectStep, detail: String, restore: bool)
    requires
        step != ReconnectStep::RestoreName,
    ensures
        step_next(step, Err(detail), restore) is None,
        !step_succeeds(step, Err(detail), restore),
{
}

} // verus!
