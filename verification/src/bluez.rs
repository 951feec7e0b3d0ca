//! Reading BlueZ's object tree: which object is the device with a given
//! address, which is the adapter, and which devices to list.
//!
//! The program around this crate asks BlueZ for its managed objects and
//! hands them over in the order it walked them, each with the properties of
//! its `org.bluez.Device1` interface read into plain values. The object
//! path is carried through untouched, whatever its type.
use vstd::prelude::*;
use vstd::string::*;
use crate::text;

verus! {

/// The properties of a `org.bluez.Device1` interface that the applet reads;
/// `None` where the property is missing or not of the expected type.
#[derive(Debug, Clone)]
pub struct DeviceProperties {
    pub address: Option<String>,
    pub alias: Option<String>,
    pub name: Option<String>,
    pub paired: Option<bool>,
    pub connected: Option<bool>,
}

/// One object of BlueZ's tree: its path, its device interface if it has
/// one, and whether it has an `org.bluez.Adapter1` interface.
#[derive(Debug)]
pub struct ManagedObject<P> {
    pub path: P,
    pub device: Option<DeviceProperties>,
    pub adapter: bool,
}

/// The device's address, or the empty string when it has none.
pub open spec fn address_or_empty(d: DeviceProperties) -> Seq<char> {
    match d.address {
        Some(a) => a@,
        None => Seq::empty(),
    }
}

/// The object is a device whose address matches `address` without regard
/// to ASCII case.
pub open spec fn is_device_at<P>(o: ManagedObject<P>, address: Seq<char>) -> bool {
    match o.device {
        Some(d) => text::eq_ignore_ascii_case_spec(address_or_empty(d), address),
        None => false,
    }
}

/// The object is a paired device whose address matches `address`.
pub open spec fn is_paired_device_at<P>(o: ManagedObject<P>, address: Seq<char>) -> bool {
    match o.device {
        Some(d) => d.paired == Some(true) && text::eq_ignore_ascii_case_spec(
            address_or_empty(d),
            address,
        ),
        None => false,
    }
}

/// The position of the first object from `i` on that is a device at
/// `address`.
pub open spec fn first_device_from<P>(objects: Seq<ManagedObject<P>>, address: Seq<char>, i: int) -> Option<int>
    decreases objects.len() - i,
{
    if i < 0 || i >= objects.len() {
        None
    } else if is_device_at(objects[i], address) {
        Some(i)
    } else {
        first_device_from(objects, address, i + 1)
    }
}

/// The path `find_device_path` gives for `address`.
pub open spec fn device_path_for<P>(objects: Seq<ManagedObject<P>>, address: Seq<char>) -> Option<P> {
    match first_device_from(objects, address, 0) {
        Some(i) => Some(objects[i].path),
        None => None,
    }
}

proof fn lemma_first_device_found<P>(objects: Seq<ManagedObject<P>>, address: Seq<char>, j: int, i: int)
    requires
        0 <= j <= i < objects.len(),
        is_device_at(objects[i], address),
        forall|m: int| j <= m < i ==> !is_device_at(#[trigger] objects[m], address),
    ensures
        first_device_from(objects, address, j) == Some(i),
    decreases i - j,
{
    if j < i {
        lemma_first_device_found(objects, address, j + 1, i);
    }
}

proof fn lemma_first_device_none<P>(objects: Seq<ManagedObject<P>>, address: Seq<char>, j: int)
    requires
        0 <= j,
        forall|m: int| j <= m < objects.len() ==> !is_device_at(#[trigger] objects[m], address),
    ensures
        first_device_from(objects, address, j) is None,
    decreases objects.len() - j,
{
    if j < objects.len() {
        lemma_first_device_none(objects, address, j + 1);
    }
}

proof fn lemma_fold_equal_addresses(x: Seq<char>, a: Seq<char>, b: Seq<char>)
    requires
        text::eq_ignore_ascii_case_spec(a, b),
    ensures
        text::eq_ignore_ascii_case_spec(x, a) == text::eq_ignore_ascii_case_spec(x, b),
{
    if text::eq_ignore_ascii_case_spec(x, a) {
        assert forall|i: int| 0 <= i < x.len() implies #[trigger] text::ascii_fold(x[i])
            == text::ascii_fold(b[i]) by {
            assert(text::ascii_fold(a[i]) == text::ascii_fold(b[i]));
        }
    }
    if text::eq_ignore_ascii_case_spec(x, b) {
        assert forall|i: int| 0 <= i < x.len() implies #[trigger] text::ascii_fold(x[i])
            == text::ascii_fold(a[i]) by {
            assert(text::ascii_fold(a[i]) == text::ascii_fold(b[i]));
        }
    }
}

proof fn lemma_first_device_same<P>(objects: Seq<ManagedObject<P>>, a: Seq<char>, b: Seq<char>, j: int)
    requires
        forall|m: int| 0 <= m < objects.len() ==> is_device_at(#[trigger] objects[m], a)
            == is_device_at(objects[m], b),
    ensures
        first_device_from(objects, a, j) == first_device_from(objects, b, j),
    decreases objects.len() - j,
{
    if 0 <= j < objects.len() {
        assert(is_device_at(objects[j], a) == is_device_at(objects[j], b));
        lemma_first_device_same(objects, a, b, j + 1);
    }
}

/// Addresses that differ only in ASCII case name the same devices, so
/// `find_device_path` gives the same path for both.
pub proof fn law_find_ignores_ascii_case<P>(objects: Seq<ManagedObject<P>>, a: Seq<char>, b: Seq<char>)
    requires
        text::eq_ignore_ascii_case_spec(a, b),
    ensures
        forall|m: int| 0 <= m < objects.len() ==> is_device_at(#[trigger] objects[m], a)
            == is_device_at(objects[m], b),
        device_path_for(objects, a) == device_path_for(objects, b),
{
    assert forall|m: int| 0 <= m < objects.len() implies is_device_at(#[trigger] objects[m], a)
        == is_device_at(objects[m], b) by {
        match objects[m].device {
            Some(d) => lemma_fold_equal_addresses(address_or_empty(d), a, b),
            None => {},
        }
    }
    lemma_first_device_same(objects, a, b, 0);
}

/// The position of the first object from `i` on that is a paired device at
/// `address`.
pub open spec fn first_paired_device_from<P>(objects: Seq<ManagedObject<P>>, address: Seq<char>, i: int) -> Option<int>
    decreases objects.len() - i,
{
    if i < 0 || i >= objects.len() {
        None
    } else if is_paired_device_at(objects[i], address) {
        Some(i)
    } else {
        first_paired_device_from(objects, address, i + 1)
    }
}

/// The path `find_paired_device_path` gives for `address`.
pub open spec fn paired_device_path_for<P>(objects: Seq<ManagedObject<P>>, address: Seq<char>) -> Option<P> {
    match first_paired_device_from(objects, address, 0) {
        Some(i) => Some(objects[i].path),
        None => None,
    }
}

proof fn lemma_first_paired_found<P>(objects: Seq<ManagedObject<P>>, address: Seq<char>, j: int, i: int)
    requires
        0 <= j <= i < objects.len(),
        is_paired_device_at(objects[i], address),
        forall|m: int| j <= m < i ==> !is_paired_device_at(#[trigger] objects[m], address),
    ensures
        first_paired_device_from(objects, address, j) == Some(i),
    decreases i - j,
{
    if j < i {
        lemma_first_paired_found(objects, address, j + 1, i);
    }
}

proof fn lemma_first_paired_none<P>(objects: Seq<ManagedObject<P>>, address: Seq<char>, j: int)
    requires
        0 <= j,
        forall|m: int| j <= m < objects.len() ==> !is_paired_device_at(#[trigger] objects[m], address),
    ensures
        first_paired_device_from(objects, address, j) is None,
    decreases objects.len() - j,
{
    if j < objects.len() {
        lemma_first_paired_none(objects, address, j + 1);
    }
}

/// The address an object's device interface reports, the empty one when it
/// reports none.
pub open spec fn reported_address(d: DeviceProperties) -> Seq<char> {
    match d.address {
        Some(a) => a@,
        None => Seq::empty(),
    }
}

/// `find_device_path` gives the path of the first object that has a device
/// interface whose address equals `address` without regard to ASCII case;
/// no other property of the device (connected, paired, names) matters.
pub proof fn law_find_device_path_first_address_match<P>(objects: Seq<ManagedObject<P>>, address: Seq<char>, i: int)
    requires
        0 <= i < objects.len(),
        objects[i].device is Some,
        text::eq_ignore_ascii_case_spec(reported_address(objects[i].device->0), address),
        forall|j: int|
            0 <= j < i ==> !((#[trigger] objects[j]).device is Some && text::eq_ignore_ascii_case_spec(
                reported_address(objects[j].device->0),
                address,
            )),
    ensures
        device_path_for(objects, address) == Some(objects[i].path),
{
    assert forall|m: int| 0 <= m < i implies !is_device_at(#[trigger] objects[m], address) by {
        assert(!(objects[m].device is Some && text::eq_ignore_ascii_case_spec(
            reported_address(objects[m].device->0),
            address,
        )));
    }
    lemma_first_device_found(objects, address, 0, i);
}

/// When no object has a device interface with that address (ignoring ASCII
/// case), `find_device_path` gives nothing.
pub proof fn law_find_device_path_no_match<P>(objects: Seq<ManagedObject<P>>, address: Seq<char>)
    requires
        forall|j: int|
            0 <= j < objects.len() ==> !((#[trigger] objects[j]).device is Some
                && text::eq_ignore_ascii_case_spec(reported_address(objects[j].device->0), address)),
    ensures
        device_path_for(objects, address) is None,
{
    assert forall|m: int| 0 <= m < objects.len() implies !is_device_at(#[trigger] objects[m], address) by {
        assert(!(objects[m].device is Some && text::eq_ignore_ascii_case_spec(
            reported_address(objects[m].device->0),
            address,
        )));
    }
    lemma_first_device_none(objects, address, 0);
}

/// A rename applies to the first object whose device interface reports
/// `Paired` as true and an address equal to `address` without regard to
/// ASCII case; whether the device is connected plays no part.
pub proof fn law_rename_target_first_paired_match<P>(objects: Seq<ManagedObject<P>>, address: Seq<char>, i: int)
    requires
        0 <= i < objects.len(),
        objects[i].device is Some,
        objects[i].device->0.paired == Some(true),
        text::eq_ignore_ascii_case_spec(reported_address(objects[i].device->0), address),
        forall|j: int|
            0 <= j < i ==> !((#[trigger] objects[j]).device is Some && objects[j].device->0.paired
                == Some(true) && text::eq_ignore_ascii_case_spec(
                reported_address(objects[j].device->0),
                address,
            )),
    ensures
        paired_device_path_for(objects, address) == Some(objects[i].path),
{
    assert forall|m: int| 0 <= m < i implies !is_paired_device_at(#[trigger] objects[m], address) by {
        assert(!(objects[m].device is Some && objects[m].device->0.paired == Some(true)
            && text::eq_ignore_ascii_case_spec(reported_address(objects[m].device->0), address)));
    }
    lemma_first_paired_found(objects, address, 0, i);
}

/// When no object is a paired device with that address, a rename finds no target.
pub proof fn law_rename_target_no_match<P>(objects: Seq<ManagedObject<P>>, address: Seq<char>)
    requires
        forall|j: int|
            0 <= j < objects.len() ==> !((#[trigger] objects[j]).device is Some
                && objects[j].device->0.paired == Some(true) && text::eq_ignore_ascii_case_spec(
                reported_address(objects[j].device->0),
                address,
            )),
    ensures
        paired_device_path_for(objects, address) is None,
{
    assert forall|m: int| 0 <= m < objects.len() implies !is_paired_device_at(
        #[trigger] objects[m],
        address,
    ) by {
        assert(!(objects[m].device is Some && objects[m].device->0.paired == Some(true)
            && text::eq_ignore_ascii_case_spec(reported_address(objects[m].device->0), address)));
    }
    lemma_first_paired_none(objects, address, 0);
}

/// The paired listing grows by a device exactly when its `Paired` flag is
/// true, whatever its `Connected` flag; the connected listing exactly when
/// its `Connected` flag is true, whatever its `Paired` flag. Each listed
/// device shows its address (or `<unknown>`) and its alias, else its name,
/// else `<unnamed>`.
pub proof fn law_listing_by_flag<P>(objects: Seq<ManagedObject<P>>, o: ManagedObject<P>)
    ensures
        listing(objects.push(o), DeviceFilter::Paired) == if o.device is Some
            && o.device->0.paired == Some(true) {
            listing(objects, DeviceFilter::Paired).push(listed_as(o.device->0))
        } else {
            listing(objects, DeviceFilter::Paired)
        },
        listing(objects.push(o), DeviceFilter::Connected) == if o.device is Some
            && o.device->0.connected == Some(true) {
            listing(objects, DeviceFilter::Connected).push(listed_as(o.device->0))
        } else {
            listing(objects, DeviceFilter::Connected)
        },
        o.device is Some ==> listed_as(o.device->0) == (
            match o.device->0.address {
                Some(a) => a@,
                None => "<unknown>"@,
            },
            match o.device->0.alias {
                Some(a) => a@,
                None => match o.device->0.name {
                    Some(n) => n@,
                    None => "<unnamed>"@,
                },
            },
        ),
{
    assert(objects.push(o).drop_last() =~= objects);
}

/// Which devices a listing keeps.
#[derive(Debug, Clone, Copy, PartialEq, Eq, Structural)]
pub enum DeviceFilter {
    Connected,
    Paired,
}

impl DeviceFilter {
    /// Whether a device with these flags (missing ones read as `false`) is kept.
    pub open spec fn keeps(self, d: DeviceProperties) -> bool {
        match self {
            DeviceFilter::Connected => d.connected == Some(true),
            DeviceFilter::Paired => d.paired == Some(true),
        }
    }
}

/// How a listing shows a device: its address, or `<unknown>`; its alias,
/// else its name, else `<unnamed>`.
pub open spec fn listed_as(d: DeviceProperties) -> (Seq<char>, Seq<char>) {
    (
        match d.address {
            Some(a) => a@,
            None => "<unknown>"@,
        },
        match d.alias {
            Some(a) => a@,
            None => match d.name {
                Some(n) => n@,
                None => "<unnamed>"@,
            },
        },
    )
}

/// The devices among `objects` that `filter` keeps, as a listing shows them,
/// in order.
pub open spec fn listing<P>(objects: Seq<ManagedObject<P>>, filter: DeviceFilter) -> Seq<
    (Seq<char>, Seq<char>),
>
    decreases objects.len(),
{
    if objects.len() == 0 {
        Seq::empty()
    } else {
        let rest = listing(objects.drop_last(), filter);
        match objects.last().device {
            Some(d) => if filter.keeps(d) {
                rest.push(listed_as(d))
            } else {
                rest
            },
            None => rest,
        }
    }
}

/// The views of a list of `(address, name)` pairs.
pub open spec fn pair_views(v: Seq<(String, String)>) -> Seq<(Seq<char>, Seq<char>)> {
    v.map_values(|p: (String, String)| (p.0@, p.1@))
}

/// Tells whether the object is a device whose address matches `address`.
fn device_at<P>(o: &ManagedObject<P>, address: &str) -> (b: bool)
    ensures
        b == is_device_at(*o, address@),
{
    match &o.device {
        Some(d) => match &d.address {
            Some(a) => text::eq_ignore_ascii_case(a.as_str(), address),
            None => {
                proof {
                    reveal_strlit("");
                }
                text::eq_ignore_ascii_case("", address)
            },
        },
        None => false,
    }
}

/// The position of the first object that is a device at `address`.
fn first_device_at<P>(objects: &Vec<ManagedObject<P>>, address: &str) -> (r: Option<usize>)
    ensures
        match r {
            Some(i) => i < objects@.len() && is_device_at(objects@[i as int], address@) && (forall|
                j: int,
            | 0 <= j < i ==> !is_device_at(#[trigger] objects@[j], address@)),
            None => forall|i: int|
                0 <= i < objects@.len() ==> !is_device_at(#[trigger] objects@[i], address@),
        },
{
    let mut i: usize = 0;
    while i < objects.len()
        invariant
            i <= objects@.len(),
            forall|j: int| 0 <= j < i ==> !is_device_at(#[trigger] objects@[j], address@),
        decreases objects@.len() - i,
    {
        if device_at(&objects[i], address) {
            return Some(i);
        }
        i = i + 1;
    }
    None
}

/// The position of the first object that is a paired device at `address`.
fn first_paired_device_at<P>(objects: &Vec<ManagedObject<P>>, address: &str) -> (r: Option<
    usize,
>)
    ensures
        match r {
            Some(i) => i < objects@.len() && is_paired_device_at(objects@[i as int], address@) && (
            forall|j: int| 0 <= j < i ==> !is_paired_device_at(#[trigger] objects@[j], address@)),
            None => forall|i: int|
                0 <= i < objects@.len() ==> !is_paired_device_at(#[trigger] objects@[i], address@),
        },
{
    let mut i: usize = 0;
    while i < objects.len()
        invariant
            i <= objects@.len(),
            forall|j: int| 0 <= j < i ==> !is_paired_device_at(#[trigger] objects@[j], address@),
        decreases objects@.len() - i,
    {
        if paired_device_at(&objects[i], address) {
            return Some(i);
        }
        i = i + 1;
    }
    None
}

/// The position of the first object that is an adapter.
fn first_adapter<P>(objects: &Vec<ManagedObject<P>>) -> (r: Option<usize>)
    ensures
        match r {
            Some(i) => i < objects@.len() && objects@[i as int].adapter && (forall|j: int|
                0 <= j < i ==> !(#[trigger] objects@[j]).adapter),
            None => forall|i: int| 0 <= i < objects@.len() ==> !(#[trigger] objects@[i]).adapter,
        },
{
    let mut i: usize = 0;
    while i < objects.len()
        invariant
            i <= objects@.len(),
            forall|j: int| 0 <= j < i ==> !(#[trigger] objects@[j]).adapter,
        decreases objects@.len() - i,
    {
        if objects[i].adapter {
            return Some(i);
        }
        i = i + 1;
    }
    None
}

/// The path of the first object that is a device with the given address,
/// compared without regard to ASCII case; a device without an address is
/// taken to have the empty one.
pub fn find_device_path<P>(objects: Vec<ManagedObject<P>>, address: &str) -> (r: Option<P>)
    ensures
        r == device_path_for(objects@, address@),
        match r {
            Some(p) => exists|i: int|
                0 <= i < objects@.len() && is_device_at(objects@[i], address@) && (forall|j: int|
                    0 <= j < i ==> !is_device_at(#[trigger] objects@[j], address@)) && p
                    == objects@[i].path,
            None => forall|i: int|
                0 <= i < objects@.len() ==> !is_device_at(#[trigger] objects@[i], address@),
        },
{
    match first_device_at(&objects, address) {
        Some(i) => {
            proof {
                lemma_first_device_found(objects@, address@, 0, i as int);
            }
            let mut objects = objects;
            let o = objects.remove(i);
            Some(o.path)
        },
        None => {
            proof {
                lemma_first_device_none(objects@, address@, 0);
            }
            None
        },
    }
}

/// Tells whether the object is a paired device with the given address.
fn paired_device_at<P>(o: &ManagedObject<P>, address: &str) -> (b: bool)
    ensures
        b == is_paired_device_at(*o, address@),
{
    match &o.device {
        Some(d) => {
            let paired = match d.paired {
                Some(p) => p,
                None => false,
            };
            if !paired {
                return false;
            }
            match &d.address {
                Some(a) => text::eq_ignore_ascii_case(a.as_str(), address),
                None => {
                proof {
                    reveal_strlit("");
                }
                text::eq_ignore_ascii_case("", address)
            },
            }
        },
        None => false,
    }
}

/// The path of the first object that is a paired device with the given
/// address: the one a rename applies to.
pub fn find_paired_device_path<P>(objects: Vec<ManagedObject<P>>, address: &str) -> (r: Option<P>)
    ensures
        r == paired_device_path_for(objects@, address@),
        match r {
            Some(p) => exists|i: int|
                0 <= i < objects@.len() && is_paired_device_at(objects@[i], address@) && (forall|
                    j: int,
                | 0 <= j < i ==> !is_paired_device_at(#[trigger] objects@[j], address@)) && p
                    == objects@[i].path,
            None => forall|i: int|
                0 <= i < objects@.len() ==> !is_paired_device_at(#[trigger] objects@[i], address@),
        },
{
    match first_paired_device_at(&objects, address) {
        Some(i) => {
            proof {
                lemma_first_paired_found(objects@, address@, 0, i as int);
            }
            let mut objects = objects;
            let o = objects.remove(i);
            Some(o.path)
        },
        None => {
            proof {
                lemma_first_paired_none(objects@, address@, 0);
            }
            None
        },
    }
}

/// The path of the first object that is an adapter.
pub fn default_adapter_path<P>(objects: Vec<ManagedObject<P>>) -> (r: Option<P>)
    ensures
        match r {
            Some(p) => exists|i: int|
                0 <= i < objects@.len() && objects@[i].adapter && (forall|j: int|
                    0 <= j < i ==> !(#[trigger] objects@[j]).adapter) && p == objects@[i].path,
            None => forall|i: int| 0 <= i < objects@.len() ==> !(#[trigger] objects@[i]).adapter,
        },
{
    match first_adapter(&objects) {
        Some(i) => {
            let mut objects = objects;
            let o = objects.remove(i);
            Some(o.path)
        },
        None => None,
    }
}

/// How a listing shows one device.
fn listed_entry(d: &DeviceProperties) -> (e: (String, String))
    ensures
        (e.0@, e.1@) == listed_as(*d),
{
    let addr = match &d.address {
        Some(a) => a.clone(),
        None => String::from_str("<unknown>"),
    };
    let name = match &d.alias {
        Some(a) => a.clone(),
        None => match &d.name {
            Some(n) => n.clone(),
            None => String::from_str("<unnamed>"),
        },
    };
    (addr, name)
}

/// The devices among `objects` that `filter` keeps, as `(address, name)`
/// pairs in the order of `objects`.
pub fn list_devices_by<P>(objects: &Vec<ManagedObject<P>>, filter: DeviceFilter) -> (v: Vec<
    (String, String),
>)
    ensures
        pair_views(v@) == listing(objects@, filter),
{
    let mut v: Vec<(String, String)> = Vec::new();
    let mut i: usize = 0;
    while i < objects.len()
        invariant
            i <= objects@.len(),
            pair_views(v@) == listing(objects@.subrange(0, i as int), filter),
        decreases objects@.len() - i,
    {
        let ghost before = v@;
        match &objects[i].device {
            Some(d) => {
                let keep = match filter {
                    DeviceFilter::Connected => d.connected == Some(true),
                    DeviceFilter::Paired => d.paired == Some(true),
                };
                if keep {
                    v.push(listed_entry(d));
                }
            },
            None => {},
        }
        proof {
            let sub = objects@.subrange(0, i + 1);
            assert(sub.drop_last() =~= objects@.subrange(0, i as int));
            assert(sub.last() == objects@[i as int]);
            if v@.len() > before.len() {
                assert(v@ =~= before.push(v@.last()));
                assert(pair_views(v@) =~= pair_views(before).push((v@.last().0@, v@.last().1@)));
            } else {
                assert(v@ =~= before);
            }
        }
        i = i + 1;
    }
    assert(objects@.subrange(0, objects@.len() as int) =~= objects@);
    v
}

/// The connected devices among `objects`, as `(address, name)` pairs.
pub fn list_connected_devices<P>(objects: &Vec<ManagedObject<P>>) -> (v: Vec<(String, String)>)
    ensures
        pair_views(v@) == listing(objects@, DeviceFilter::Connected),
{
    list_devices_by(objects, DeviceFilter::Connected)
}

/// The paired devices among `objects`, as `(address, name)` pairs.
pub fn list_paired_devices<P>(objects: &Vec<ManagedObject<P>>) -> (v: Vec<(String, String)>)
    ensures
        pair_views(v@) == listing(objects@, DeviceFilter::Paired),
{
    list_devices_by(objects, DeviceFilter::Paired)
}

} // verus!
