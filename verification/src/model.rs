//! The applet's state: the devices it shows and what the user is doing.
use vstd::prelude::*;
use crate::keyed;
use crate::report::ErrorMessage;

verus! {

/// A connected device as the popup lists it.
#[derive(Debug)]
pub struct ConnectedDevice {
    pub addr: String,
    pub name: String,
    /// Charge in percent, when the kernel reports one for the device.
    pub battery: Option<u8>,
}

impl ConnectedDevice {
    /// The entry for a device that BlueZ lists as connected, given what
    /// the power-supply lookup found for it: a supply name and its charge.
    pub fn new(addr: String, name: String, supply: Option<(String, u8)>) -> (d: ConnectedDevice)
        ensures
            d.addr == addr,
            d.name == name,
            d.battery == match supply {
                Some((_, capacity)) => Some(capacity),
                None => None::<u8>,
            },
    {
        let battery = match supply {
            Some((_, capacity)) => Some(capacity),
            None => None,
        };
        ConnectedDevice { addr, name, battery }
    }
}

/// One load of the device lists: the connected devices and the paired ones
/// as `(address, name)` pairs.
#[derive(Debug)]
pub struct DeviceData {
    pub connected: Vec<ConnectedDevice>,
    pub paired: Vec<(String, String)>,
}

impl Clone for ConnectedDevice {
    /// An equal copy.
    fn clone(&self) -> (c: Self)
        ensures
            c == *self,
    {
        ConnectedDevice { addr: self.addr.clone(), name: self.name.clone(), battery: self.battery }
    }
}

impl Clone for DeviceData {
    /// A copy with the same devices in the same order.
    fn clone(&self) -> (c: Self)
        ensures
            c.connected@ == self.connected@,
            c.paired@ == self.paired@,
    {
        let mut connected: Vec<ConnectedDevice> = Vec::new();
        let mut i: usize = 0;
        while i < self.connected.len()
            invariant
                i <= self.connected@.len(),
                connected@ == self.connected@.subrange(0, i as int),
            decreases self.connected@.len() - i,
        {
            connected.push(self.connected[i].clone());
            i = i + 1;
            assert(connected@ =~= self.connected@.subrange(0, i as int));
        }
        assert(connected@ =~= self.connected@);
        let mut paired: Vec<(String, String)> = Vec::new();
        let mut j: usize = 0;
        while j < self.paired.len()
            invariant
                j <= self.paired@.len(),
                paired@ == self.paired@.subrange(0, j as int),
            decreases self.paired@.len() - j,
        {
            let p = &self.paired[j];
            paired.push((p.0.clone(), p.1.clone()));
            j = j + 1;
            assert(paired@ =~= self.paired@.subrange(0, j as int));
        }
        assert(paired@ =~= self.paired@);
        DeviceData { connected, paired }
    }
}

/// Everything the applet remembers between messages.
///
/// `paired_names` and `reconnecting` are maps kept as lists of
/// `(address, value)` pairs; an address occurs in each at most once.
#[derive(Debug)]
pub struct AppModel {
    /// The open popup window, by the handle the program gave it.
    pub popup: Option<u64>,
    pub connected: Vec<ConnectedDevice>,
    pub paired: Vec<(String, String)>,
    /// Name of each paired address, from the last load.
    pub paired_names: Vec<(String, String)>,
    /// Devices being re-paired, with the seconds left on their countdown.
    pub reconnecting: Vec<(String, u64)>,
    /// The paired device whose name is being edited.
    pub renaming_addr: Option<String>,
    /// The text in the rename field.
    pub renaming_value: String,
    pub last_error: Option<ErrorMessage>,
}

impl AppModel {
    /// No address occurs twice in either map.
    pub open spec fn wf(&self) -> bool {
        &&& keyed::keys_distinct(self.paired_names@)
        &&& keyed::keys_distinct(self.reconnecting@)
    }

    /// Nothing loaded, nothing open, nothing in progress.
    pub open spec fn is_initial(&self) -> bool {
        &&& self.popup is None
        &&& self.connected@.len() == 0
        &&& self.paired@.len() == 0
        &&& self.paired_names@.len() == 0
        &&& self.reconnecting@.len() == 0
        &&& self.renaming_addr is None
        &&& self.renaming_value@.len() == 0
        &&& self.last_error is None
    }
}

impl Default for AppModel {
    fn default() -> (m: AppModel)
        ensures
            m.is_initial(),
            m.wf(),
    {
        AppModel {
            popup: None,
            connected: Vec::new(),
            paired: Vec::new(),
            paired_names: Vec::new(),
            reconnecting: Vec::new(),
            renaming_addr: None,
            renaming_value: String::new(),
            last_error: None,
        }
    }
}

} // verus!
