//! What the popup shows for each device, before it is turned into widgets.
use vstd::prelude::*;
use vstd::string::*;
use crate::keyed;
use crate::model::{AppModel, ConnectedDevice};

verus! {

/// The label of a device: its name, then its address in brackets.
pub open spec fn label_spec(name: Seq<char>, addr: Seq<char>) -> Seq<char> {
    name + " ("@ + addr + ")"@
}

/// A row of the connected list.
#[derive(Debug)]
pub struct ConnectedRow {
    /// The address the disconnect button acts on.
    pub addr: String,
    pub label: String,
    /// Charge in percent, or `None` for "unknown".
    pub battery: Option<u8>,
}

/// A row of the paired list.
#[derive(Debug)]
pub enum PairedRow {
    /// The device being renamed: a text field with save and cancel buttons.
    Editing { addr: String },
    /// A device being re-paired: its label and the seconds left.
    Reconnecting { addr: String, label: String, seconds: u64 },
    /// Any other device: its label and the rename, reconnect and remove buttons.
    Idle { addr: String, name: String, label: String },
}

/// A connected row by the characters it shows.
pub struct ConnectedRowView {
    pub addr: Seq<char>,
    pub label: Seq<char>,
    pub battery: Option<u8>,
}

/// A paired row by the characters it shows.
pub enum PairedRowView {
    Editing(Seq<char>),
    Reconnecting(Seq<char>, Seq<char>, u64),
    Idle(Seq<char>, Seq<char>, Seq<char>),
}

impl View for ConnectedRow {
    type V = ConnectedRowView;

    open spec fn view(&self) -> ConnectedRowView {
        ConnectedRowView { addr: self.addr@, label: self.label@, battery: self.battery }
    }
}

impl View for PairedRow {
    type V = PairedRowView;

    open spec fn view(&self) -> PairedRowView {
        match self {
            PairedRow::Editing { addr } => PairedRowView::Editing(addr@),
            PairedRow::Reconnecting { addr, label, seconds } => PairedRowView::Reconnecting(
                addr@,
                label@,
                *seconds,
            ),
            PairedRow::Idle { addr, name, label } => PairedRowView::Idle(addr@, name@, label@),
        }
    }
}

/// The row the popup shows for a connected device.
pub open spec fn connected_row_view(d: ConnectedDevice) -> ConnectedRowView {
    ConnectedRowView { addr: d.addr@, label: label_spec(d.name@, d.addr@), battery: d.battery }
}

/// The connected list the popup shows.
pub open spec fn connected_rows_view(devices: Seq<ConnectedDevice>) -> Seq<ConnectedRowView> {
    devices.map_values(|d: ConnectedDevice| connected_row_view(d))
}

/// The row the popup shows for the paired device `pair` in state `app`.
pub open spec fn paired_row_view(app: AppModel, pair: (String, String)) -> PairedRowView {
    if app.renaming_addr is Some && app.renaming_addr->0@ == pair.0@ {
        PairedRowView::Editing(pair.0@)
    } else {
        match keyed::lookup(app.reconnecting@, pair.0@) {
            Some(seconds) => PairedRowView::Reconnecting(
                pair.0@,
                label_spec(pair.1@, pair.0@),
                seconds,
            ),
            None => PairedRowView::Idle(pair.0@, pair.1@, label_spec(pair.1@, pair.0@)),
        }
    }
}

/// The paired list the popup shows in state `app`.
pub open spec fn paired_rows_view(app: AppModel) -> Seq<PairedRowView> {
    app.paired@.map_values(|p: (String, String)| paired_row_view(app, p))
}

/// The popup's rows are a function of the state alone: no window, no
/// earlier drawing, enters them. Two states that agree on the devices,
/// the rename in progress and the countdowns give the same rows.
pub proof fn law_rows_follow_state(a: AppModel, b: AppModel)
    requires
        a.connected@ == b.connected@,
        a.paired@ == b.paired@,
        a.reconnecting@ == b.reconnecting@,
        a.renaming_addr is Some == b.renaming_addr is Some,
        a.renaming_addr is Some ==> a.renaming_addr->0@ == b.renaming_addr->0@,
    ensures
        connected_rows_view(a.connected@) == connected_rows_view(b.connected@),
        paired_rows_view(a) == paired_rows_view(b),
{
    assert(paired_rows_view(a) =~= paired_rows_view(b));
}

/// `row` is how the popup shows the paired device `pair` in state `app`.
pub open spec fn paired_row_for(app: AppModel, pair: (String, String), row: PairedRow) -> bool {
    if app.renaming_addr is Some && app.renaming_addr->0@ == pair.0@ {
        row == PairedRow::Editing { addr: pair.0 }
    } else {
        match keyed::lookup(app.reconnecting@, pair.0@) {
            Some(seconds) => match row {
                PairedRow::Reconnecting { addr, label, seconds: s } => addr == pair.0 && label@
                    == label_spec(pair.1@, pair.0@) && s == seconds,
                _ => false,
            },
            None => match row {
                PairedRow::Idle { addr, name, label } => addr == pair.0 && name == pair.1
                    && label@ == label_spec(pair.1@, pair.0@),
                _ => false,
            },
        }
    }
}

/// The label of a device: `"<name> (<address>)"`.
pub fn device_label(name: &str, addr: &str) -> (label: String)
    ensures
        label@ == label_spec(name@, addr@),
{
    let label = String::from_str(name);
    let label = label.concat(" (");
    let label = label.concat(addr);
    label.concat(")")
}

/// The rows of the connected list, one per connected device, in order.
pub fn connected_rows(devices: &Vec<ConnectedDevice>) -> (rows: Vec<ConnectedRow>)
    ensures
        rows@.map_values(|r: ConnectedRow| r@) == connected_rows_view(devices@),
        rows@.len() == devices@.len(),
        forall|i: int|
            0 <= i < devices@.len() ==> {
                &&& (#[trigger] rows@[i]).addr == devices@[i].addr
                &&& rows@[i].label@ == label_spec(devices@[i].name@, devices@[i].addr@)
                &&& rows@[i].battery == devices@[i].battery
            },
{
    let mut rows: Vec<ConnectedRow> = Vec::new();
    let mut i: usize = 0;
    while i < devices.len()
        invariant
            i <= devices@.len(),
            rows@.len() == i,
            forall|j: int|
                0 <= j < i ==> {
                    &&& (#[trigger] rows@[j]).addr == devices@[j].addr
                    &&& rows@[j].label@ == label_spec(devices@[j].name@, devices@[j].addr@)
                    &&& rows@[j].battery == devices@[j].battery
                },
        decreases devices@.len() - i,
    {
        let d = &devices[i];
        let label = device_label(d.name.as_str(), d.addr.as_str());
        rows.push(ConnectedRow { addr: d.addr.clone(), label, battery: d.battery });
        i = i + 1;
    }
    assert(rows@.map_values(|r: ConnectedRow| r@) =~= connected_rows_view(devices@));
    rows
}

/// The row for one paired device.
fn paired_row(app: &AppModel, pair: &(String, String)) -> (row: PairedRow)
    ensures
        row@ == paired_row_view(*app, *pair),
        paired_row_for(*app, *pair, row),
{
    let editing = match &app.renaming_addr {
        Some(a) => *a == pair.0,
        None => false,
    };
    if editing {
        return PairedRow::Editing { addr: pair.0.clone() };
    }
    let label = device_label(pair.1.as_str(), pair.0.as_str());
    match keyed::position_of_key(&app.reconnecting, &pair.0) {
        Some(i) => {
            proof {
                keyed::lemma_first_key_index_unique(app.reconnecting@, pair.0@, i as int);
            }
            PairedRow::Reconnecting { addr: pair.0.clone(), label, seconds: app.reconnecting[i].1 }
        },
        None => PairedRow::Idle { addr: pair.0.clone(), name: pair.1.clone(), label },
    }
}

/// The rows of the paired list, one per paired device, in order.
pub fn paired_rows(app: &AppModel) -> (rows: Vec<PairedRow>)
    ensures
        rows@.map_values(|r: PairedRow| r@) == paired_rows_view(*app),
        rows@.len() == app.paired@.len(),
        forall|i: int|
            0 <= i < app.paired@.len() ==> paired_row_for(*app, app.paired@[i], #[trigger] rows@[i]),
{
    let mut rows: Vec<PairedRow> = Vec::new();
    let mut i: usize = 0;
    while i < app.paired.len()
        invariant
            i <= app.paired@.len(),
            rows@.len() == i,
            forall|j: int|
                0 <= j < i ==> paired_row_for(*app, app.paired@[j], #[trigger] rows@[j]),
            forall|j: int|
                0 <= j < i ==> (#[trigger] rows@[j])@ == paired_row_view(*app, app.paired@[j]),
        decreases app.paired@.len() - i,
    {
        let row = paired_row(app, &app.paired[i]);
        rows.push(row);
        i = i + 1;
    }
    assert(rows@.map_values(|r: PairedRow| r@) =~= paired_rows_view(*app));
    rows
}

} // verus!
