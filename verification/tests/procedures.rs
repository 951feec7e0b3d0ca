use gamepad_applet::discovery::{Discovery, DiscoveryCommand, DiscoveryEvent, DiscoveryPhase};
use gamepad_applet::reconnect::{Reconnect, ReconnectProgress, ReconnectStep};
use gamepad_applet::report::{device_found_outcome, device_request_outcome, ErrorMessage, Failure};

const SEC: u128 = 1_000_000_000;

fn run(name: &str, replies: Vec<Result<bool, String>>) -> (Vec<ReconnectStep>, Result<(String, bool), ErrorMessage>) {
    let mut r = Reconnect::start("AA:BB".to_string(), name.to_string());
    let mut steps = vec![];
    for reply in replies {
        steps.push(r.step());
        match r.advance(reply) {
            ReconnectProgress::Next(n) => r = n,
            ReconnectProgress::Done(res) => return (steps, res),
        }
    }
    panic!("run did not finish");
}

#[test]
fn reconnect_runs_all_steps_and_restores_name() {
    let (steps, res) = run("Pad", vec![Ok(true), Ok(true), Ok(true), Ok(true), Ok(true), Err("x".into())]);
    assert_eq!(
        steps,
        vec![
            ReconnectStep::RemoveDevice,
            ReconnectStep::Discover,
            ReconnectStep::Pair,
            ReconnectStep::Trust,
            ReconnectStep::Connect,
            ReconnectStep::RestoreName
        ]
    );
    assert!(matches!(res, Ok((a, true)) if a == "AA:BB"));
}

#[test]
fn reconnect_without_name_ends_after_connect() {
    let (steps, res) = run("", vec![Ok(false), Ok(true), Ok(true), Ok(true), Ok(true)]);
    assert_eq!(steps.len(), 5);
    assert!(matches!(res, Ok((a, true)) if a == "AA:BB"));
}

#[test]
fn reconnect_refusals() {
    let (_, res) = run("Pad", vec![Ok(true), Ok(false)]);
    assert!(matches!(res, Err(ErrorMessage::ReconnectNotFound)));
    let (_, res) = run("Pad", vec![Ok(true), Ok(true), Ok(false)]);
    assert!(matches!(res, Err(ErrorMessage::ReconnectPairFailed)));
    let (_, res) = run("Pad", vec![Ok(true), Ok(true), Ok(true), Ok(false)]);
    assert!(matches!(res, Err(ErrorMessage::ReconnectTrustFailed)));
    let (_, res) = run("Pad", vec![Ok(true), Ok(true), Ok(true), Ok(true), Ok(false)]);
    assert!(matches!(res, Err(ErrorMessage::ReconnectConnectFailed)));
}

#[test]
fn reconnect_call_errors_are_worded_per_step() {
    let (_, res) = run("Pad", vec![Err("no bus".into())]);
    assert!(matches!(res, Err(ErrorMessage::Text(t)) if t == "Failed to remove device: no bus"));
    let (_, res) = run("Pad", vec![Ok(true), Err("busy".into())]);
    assert!(matches!(res, Err(ErrorMessage::Text(t)) if t == "Failed to discover device: busy"));
    let (_, res) = run("Pad", vec![Ok(true), Ok(true), Err("e".into())]);
    assert!(matches!(res, Err(ErrorMessage::Text(t)) if t == "Failed to pair device: e"));
    let (_, res) = run("Pad", vec![Ok(true), Ok(true), Ok(true), Err("e".into())]);
    assert!(matches!(res, Err(ErrorMessage::Text(t)) if t == "Failed to trust device: e"));
    let (_, res) = run("Pad", vec![Ok(true), Ok(true), Ok(true), Ok(true), Err("e".into())]);
    assert!(matches!(res, Err(ErrorMessage::Text(t)) if t == "Failed to connect device: e"));
}

#[test]
fn failure_messages() {
    assert_eq!(Failure::Bus.describe("down"), "DBus error: down");
    assert_eq!(Failure::ListConnected.describe("x"), "Failed to list connected devices: x");
    assert_eq!(Failure::ListPaired.describe("x"), "Failed to list paired devices: x");
    assert_eq!(Failure::Disconnect.describe("x"), "Failed to disconnect device: x");
    assert_eq!(Failure::Rename.describe("x"), "Failed to rename device: x");
    assert!(device_found_outcome(true).is_ok());
    assert!(matches!(device_found_outcome(false), Err(ErrorMessage::Text(t)) if t == "Device not found"));
    assert!(device_request_outcome(Failure::Remove, Ok(true)).is_ok());
    assert!(matches!(device_request_outcome(Failure::Remove, Ok(false)), Err(ErrorMessage::Text(t)) if t == "Device not found"));
    assert!(matches!(device_request_outcome(Failure::Remove, Err("gone".into())), Err(ErrorMessage::Text(t)) if t == "Failed to remove device: gone"));
}

#[test]
fn discovery_known_device_needs_no_scan() {
    let (mut d, cmd) = Discovery::new(60 * SEC);
    assert_eq!(cmd, DiscoveryCommand::CheckKnown);
    assert_eq!(d.next(DiscoveryEvent::Known(true)), DiscoveryCommand::Finish(true));
    assert_eq!(d.phase(), DiscoveryPhase::Finished(true));
}

#[test]
fn discovery_without_adapter_fails() {
    let (mut d, _) = Discovery::new(60 * SEC);
    assert_eq!(d.next(DiscoveryEvent::Known(false)), DiscoveryCommand::FindAdapter);
    assert_eq!(d.next(DiscoveryEvent::Adapter(false)), DiscoveryCommand::Finish(false));
}

#[test]
fn discovery_reports_each_second_once_and_stops_when_found() {
    let (mut d, _) = Discovery::new(60 * SEC);
    d.next(DiscoveryEvent::Known(false));
    assert_eq!(d.next(DiscoveryEvent::Adapter(true)), DiscoveryCommand::StartScan);
    assert_eq!(d.next(DiscoveryEvent::ScanStarted), DiscoveryCommand::Poll);
    assert_eq!(d.next(DiscoveryEvent::Polled(false, 1000)), DiscoveryCommand::Wait(Some(59)));
    assert_eq!(d.next(DiscoveryEvent::Polled(false, SEC / 2)), DiscoveryCommand::Wait(None));
    assert_eq!(d.next(DiscoveryEvent::Polled(false, SEC + 1)), DiscoveryCommand::Wait(Some(58)));
    assert_eq!(d.next(DiscoveryEvent::Polled(true, 2 * SEC)), DiscoveryCommand::StopScan);
    assert_eq!(d.next(DiscoveryEvent::ScanStopped), DiscoveryCommand::Finish(true));
}

#[test]
fn discovery_times_out() {
    let (mut d, _) = Discovery::new(2 * SEC);
    d.next(DiscoveryEvent::Known(false));
    d.next(DiscoveryEvent::Adapter(true));
    d.next(DiscoveryEvent::ScanStarted);
    assert_eq!(d.next(DiscoveryEvent::Polled(false, SEC + 5)), DiscoveryCommand::Wait(Some(0)));
    assert_eq!(d.next(DiscoveryEvent::Polled(false, 2 * SEC)), DiscoveryCommand::StopScan);
    assert_eq!(d.phase(), DiscoveryPhase::Stopping(false));
    assert_eq!(d.next(DiscoveryEvent::ScanStopped), DiscoveryCommand::Finish(false));
}

#[test]
fn discovery_call_failure_ends_without_stopping_scan() {
    let (mut d, _) = Discovery::new(60 * SEC);
    d.next(DiscoveryEvent::Known(false));
    d.next(DiscoveryEvent::Adapter(true));
    d.next(DiscoveryEvent::ScanStarted);
    assert_eq!(d.next(DiscoveryEvent::CallFailed), DiscoveryCommand::Abort);
    assert_eq!(d.phase(), DiscoveryPhase::Failed);
    let (mut early, _) = Discovery::new(60 * SEC);
    assert_eq!(early.next(DiscoveryEvent::CallFailed), DiscoveryCommand::Abort);
}
