//! What reaches the applet, and what it asks the program around it to do.
use vstd::prelude::*;
use crate::model::DeviceData;
use crate::report::ErrorMessage;

verus! {

/// An event for the applet: a click, a key, a timer, or the answer to an
/// earlier request.
#[derive(Debug)]
pub enum Message {
    /// The panel icon was clicked; the handle is the one a new popup would get.
    TogglePopup(u64),
    /// A window was closed.
    PopupClosed(u64),
    /// The periodic reload timer fired.
    Refresh,
    /// The one-second timer fired.
    Tick,
    DataLoaded(Result<DeviceData, ErrorMessage>),
    DisconnectDevice(String),
    DisconnectResult(Result<(), ErrorMessage>),
    /// Start editing the name of a paired device: its address and current name.
    RenameStart(String, String),
    RenameInput(String),
    RenameCancel,
    RenameSubmit(String),
    RenameResult(Result<(), ErrorMessage>),
    RemoveDevice(String),
    RemoveResult(Result<(), ErrorMessage>),
    ReconnectDevice(String),
    /// The end of a re-pairing: the address and whether it was found.
    ReconnectResult(Result<(String, bool), ErrorMessage>),
}

/// A copy of an error reply or of a success reply: an equal error, or a
/// clone of the success value.
fn clone_reply<T: Clone>(r: &Result<T, ErrorMessage>) -> (c: Result<T, ErrorMessage>)
    ensures
        match *r {
            Ok(v) => c is Ok && cloned(v, c->Ok_0),
            Err(e) => c == Err::<T, ErrorMessage>(e),
        },
{
    match r {
        Ok(v) => Ok(v.clone()),
        Err(e) => Err(e.clone()),
    }
}

/// `c` is a copy of `m`: equal, except that a loaded device list is
/// copied with the same devices in the same order.
pub open spec fn is_copy_of(c: Message, m: Message) -> bool {
    match m {
        Message::DataLoaded(Ok(d)) => c is DataLoaded && c->DataLoaded_0 is Ok
            && c->DataLoaded_0->Ok_0.connected@ == d.connected@
            && c->DataLoaded_0->Ok_0.paired@ == d.paired@,
        _ => c == m,
    }
}

impl Clone for Message {
    /// A copy of the message.
    fn clone(&self) -> (c: Self)
        ensures
            is_copy_of(c, *self),
    {
        match self {
            Message::TogglePopup(h) => Message::TogglePopup(*h),
            Message::PopupClosed(h) => Message::PopupClosed(*h),
            Message::Refresh => Message::Refresh,
            Message::Tick => Message::Tick,
            Message::DataLoaded(r) => Message::DataLoaded(
                match r {
                    Ok(d) => Ok(d.clone()),
                    Err(e) => Err(e.clone()),
                },
            ),
            Message::DisconnectDevice(a) => Message::DisconnectDevice(a.clone()),
            Message::DisconnectResult(r) => Message::DisconnectResult(clone_reply(r)),
            Message::RenameStart(a, n) => Message::RenameStart(a.clone(), n.clone()),
            Message::RenameInput(v) => Message::RenameInput(v.clone()),
            Message::RenameCancel => Message::RenameCancel,
            Message::RenameSubmit(a) => Message::RenameSubmit(a.clone()),
            Message::RenameResult(r) => Message::RenameResult(clone_reply(r)),
            Message::RemoveDevice(a) => Message::RemoveDevice(a.clone()),
            Message::RemoveResult(r) => Message::RemoveResult(clone_reply(r)),
            Message::ReconnectDevice(a) => Message::ReconnectDevice(a.clone()),
            Message::ReconnectResult(r) => Message::ReconnectResult(
                match r {
                    Ok((a, found)) => Ok((a.clone(), *found)),
                    Err(e) => Err(e.clone()),
                },
            ),
        }
    }
}

/// Work for the program around the applet.
#[derive(Debug)]
pub enum Action {
    /// Nothing to do.
    Idle,
    /// Read both device lists from BlueZ and answer with `DataLoaded`.
    LoadDevices,
    /// Disconnect this address and answer with `DisconnectResult`.
    Disconnect(String),
    /// Give this address this name and answer with `RenameResult`.
    Rename(String, String),
    /// Remove this address and answer with `RemoveResult`.
    Remove(String),
    /// Remove, rediscover, pair, trust and connect this address, then give
    /// it this name back; answer with `ReconnectResult`.
    Reconnect(String, String),
    /// Open the popup under this handle.
    OpenPopup(u64),
    /// Close the popup with this handle.
    ClosePopup(u64),
}

} // verus!
