//! Finding a controller's charge among the kernel's power supplies.
//!
//! The kernel lists power supplies as directories whose names contain the
//! device's address in lower case, each with a `capacity` file holding the
//! charge in percent. The program around this crate reads the directory and
//! the files; this module says which supply belongs to a device and what a
//! `capacity` file means.
use vstd::prelude::*;
use crate::text;

verus! {

/// The text that a power supply's name contains when it belongs to the
/// device at `addr`: the address in lower case.
pub fn battery_key(addr: &str) -> (key: String)
    ensures
        key@ == text::unicode_lowercase(addr@),
{
    text::to_lowercase(addr)
}

/// Whether the power supply called `supply` belongs to the device whose
/// key is `key`: its name contains the key.
pub fn supply_belongs_to(supply: &str, key: &str) -> (b: bool)
    ensures
        b == text::contains_spec(supply@, key@),
{
    text::contains(supply, key)
}

/// The charge that a `capacity` file holds: its text without surrounding
/// white space, read as a number from 0 to 255; `None` when it is not one.
pub fn parse_capacity(contents: &str) -> (charge: Option<u8>)
    ensures
        charge == text::parse_u8_spec(text::trim_spec(contents@)),
{
    let trimmed = text::trim(contents);
    text::parse_u8(trimmed.as_str())
}

/// A walk through the power-supply directory looking for the first supply
/// of a device whose `capacity` file holds a number.
pub struct SupplySearch {
    key: String,
    candidate: Option<String>,
}

impl SupplySearch {
    pub closed spec fn key_spec(&self) -> String {
        self.key
    }

    pub closed spec fn candidate_spec(&self) -> Option<String> {
        self.candidate
    }

    /// A search for the supplies whose names contain `key` (see `battery_key`).
    pub fn new(key: String) -> (s: SupplySearch)
        ensures
            s.key_spec() == key,
            s.candidate_spec() is None,
    {
        SupplySearch { key, candidate: None }
    }

    /// The next entry of the directory: whether to read its `capacity`
    /// file (its name contains the key) or to skip it.
    pub fn consider(&mut self, name: String) -> (read: bool)
        ensures
            final(self).key_spec() == old(self).key_spec(),
            read == text::contains_spec(name@, old(self).key_spec()@),
            final(self).candidate_spec() == if read {
                Some(name)
            } else {
                None::<String>
            },
    {
        let read = text::contains(name.as_str(), self.key.as_str());
        if read {
            self.candidate = Some(name);
        } else {
            self.candidate = None;
        }
        read
    }

    /// The text of the `capacity` file of the entry just considered: the
    /// supply and its charge when the text reads as a number (the search
    /// is over), else `None` (the search goes on with the next entry).
    pub fn capacity(&mut self, contents: &str) -> (found: Option<(String, u8)>)
        requires
            old(self).candidate_spec() is Some,
        ensures
            final(self).key_spec() == old(self).key_spec(),
            final(self).candidate_spec() is None,
            match text::parse_u8_spec(text::trim_spec(contents@)) {
                Some(charge) => found == Some((old(self).candidate_spec()->0, charge)),
                None => found is None,
            },
    {
        let charge = parse_capacity(contents);
        let name = self.candidate.take();
        match (charge, name) {
            (Some(c), Some(n)) => Some((n, c)),
            _ => None,
        }
    }
}

} // verus!
