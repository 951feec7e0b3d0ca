//! What the applet tells the user when something goes wrong.
use vstd::prelude::*;
use vstd::string::*;

verus! {

/// An error shown under the device lists. `Text` carries a message that is
/// already worded; the other variants are translated by the program that
/// draws the popup.
#[derive(Debug)]
pub enum ErrorMessage {
    Text(String),
    RenameEmpty,
    ReconnectNotFound,
    ReconnectPairFailed,
    ReconnectTrustFailed,
    ReconnectConnectFailed,
}

impl Clone for ErrorMessage {
    /// An equal copy.
    fn clone(&self) -> (c: Self)
        ensures
            c == *self,
    {
        match self {
            ErrorMessage::Text(t) => ErrorMessage::Text(t.clone()),
            ErrorMessage::RenameEmpty => ErrorMessage::RenameEmpty,
            ErrorMessage::ReconnectNotFound => ErrorMessage::ReconnectNotFound,
            ErrorMessage::ReconnectPairFailed => ErrorMessage::ReconnectPairFailed,
            ErrorMessage::ReconnectTrustFailed => ErrorMessage::ReconnectTrustFailed,
            ErrorMessage::ReconnectConnectFailed => ErrorMessage::ReconnectConnectFailed,
        }
    }
}

/// `e` is a worded message whose characters are `text`.
pub open spec fn is_text(e: ErrorMessage, text: Seq<char>) -> bool {
    match e {
        ErrorMessage::Text(t) => t@ == text,
        _ => false,
    }
}

/// The operation that a D-Bus failure interrupted.
#[derive(Debug, Clone, Copy, PartialEq, Eq, Structural)]
pub enum Failure {
    Bus,
    ListConnected,
    ListPaired,
    Disconnect,
    Remove,
    Rename,
    Discover,
    Pair,
    Trust,
    Connect,
}

impl Failure {
    /// The words that open the message for this failure.
    pub open spec fn prefix_spec(self) -> Seq<char> {
        match self {
            Failure::Bus => "DBus error"@,
            Failure::ListConnected => "Failed to list connected devices"@,
            Failure::ListPaired => "Failed to list paired devices"@,
            Failure::Disconnect => "Failed to disconnect device"@,
            Failure::Remove => "Failed to remove device"@,
            Failure::Rename => "Failed to rename device"@,
            Failure::Discover => "Failed to discover device"@,
            Failure::Pair => "Failed to pair device"@,
            Failure::Trust => "Failed to trust device"@,
            Failure::Connect => "Failed to connect device"@,
        }
    }

    /// The words that open the message for this failure.
    pub fn prefix(&self) -> (p: &'static str)
        ensures
            p@ == self.prefix_spec(),
    {
        match self {
            Failure::Bus => "DBus error",
            Failure::ListConnected => "Failed to list connected devices",
            Failure::ListPaired => "Failed to list paired devices",
            Failure::Disconnect => "Failed to disconnect device",
            Failure::Remove => "Failed to remove device",
            Failure::Rename => "Failed to rename device",
            Failure::Discover => "Failed to discover device",
            Failure::Pair => "Failed to pair device",
            Failure::Trust => "Failed to trust device",
            Failure::Connect => "Failed to connect device",
        }
    }

    /// The message for this failure: its prefix, a colon, a space and the
    /// error's own text, as in `"Failed to pair device: <detail>"`.
    pub fn describe(&self, detail: &str) -> (m: String)
        ensures
            m@ == self.prefix_spec() + ": "@ + detail@,
    {
        let head = String::from_str(self.prefix());
        let head = head.concat(": ");
        head.concat(detail)
    }

    /// The same message, wrapped as an error to show.
    pub fn error(&self, detail: &str) -> (e: ErrorMessage)
        ensures
            is_text(e, self.prefix_spec() + ": "@ + detail@),
    {
        ErrorMessage::Text(self.describe(detail))
    }
}

/// What a disconnect, removal or rename request reports once BlueZ has
/// answered: success when the device was found, else "Device not found".
pub fn device_found_outcome(found: bool) -> (r: Result<(), ErrorMessage>)
    ensures
        found <==> r is Ok,
        !found ==> is_text(r->Err_0, "Device not found"@),
{
    if found {
        Ok(())
    } else {
        Err(ErrorMessage::Text(String::from_str("Device not found")))
    }
}

/// What a disconnect, removal or rename request reports from BlueZ's
/// answer: the error worded for `failure` when the call failed (its own
/// text in `reply`), else as `device_found_outcome` says.
pub fn device_request_outcome(failure: Failure, reply: Result<bool, String>) -> (r: Result<
    (),
    ErrorMessage,
>)
    ensures
        r is Ok <==> reply == Ok::<bool, String>(true),
        reply matches Err(detail) ==> is_text(r->Err_0, failure.prefix_spec() + ": "@ + detail@),
        reply == Ok::<bool, String>(false) ==> is_text(r->Err_0, "Device not found"@),
{
    match reply {
        Err(detail) => Err(failure.error(detail.as_str())),
        Ok(found) => device_found_outcome(found),
    }
}

} // verus!
