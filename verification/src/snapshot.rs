//! The external addresses that one pass resolved, one per address family at
//! most.

use vstd::prelude::*;
use crate::address::record_type_of;
use crate::address::IpAddress;
use crate::record_type::RecordType;
use crate::reply::Reply;
use crate::resolver::get_external_ip;
use crate::resolver::resolved_address;
use crate::resolver::AddressBody;
use crate::resolver::ResolutionFailure;

verus! {

/// A mapping from record type to resolved address. It holds one address per
/// family at most, and the address under a record type is always of that
/// type's family.
#[derive(Debug, PartialEq, Eq)]
pub struct AddressSnapshot {
    v4: Option<u32>,
    v6: Option<u128>,
}

/// Whether every address of a mapping stands under the record type of its
/// own family.
pub open spec fn families_agree(addresses: Map<RecordType, IpAddress>) -> bool {
    forall|rtype: RecordType| #[trigger]
        addresses.contains_key(rtype) ==> record_type_of(addresses[rtype]) == rtype
}

/// The entry of a mapping under a record type, if there is one.
pub open spec fn entry(addresses: Map<RecordType, IpAddress>, rtype: RecordType) -> Option<
    IpAddress,
> {
    if addresses.contains_key(rtype) {
        Some(addresses[rtype])
    } else {
        None
    }
}

impl View for AddressSnapshot {
    type V = Map<RecordType, IpAddress>;

    closed spec fn view(&self) -> Map<RecordType, IpAddress> {
        let none = Map::<RecordType, IpAddress>::empty();
        let first = match self.v4 {
            Some(bits) => none.insert(RecordType::A, IpAddress::V4(bits)),
            None => none,
        };
        match self.v6 {
            Some(bits) => first.insert(RecordType::AAAA, IpAddress::V6(bits)),
            None => first,
        }
    }
}

impl AddressSnapshot {
    /// A snapshot without addresses.
    pub fn new() -> (snapshot: AddressSnapshot)
        ensures
            snapshot@ == Map::<RecordType, IpAddress>::empty(),
    {
        let snapshot = AddressSnapshot { v4: None, v6: None };
        snapshot
    }

    /// Puts an address under the record type of its family, in place of the
    /// one that was there.
    pub fn insert(&mut self, address: IpAddress)
        ensures
            final(self)@ == old(self)@.insert(record_type_of(address), address),
    {
        match address {
            IpAddress::V4(bits) => {
                self.v4 = Some(bits);
            },
            IpAddress::V6(bits) => {
                self.v6 = Some(bits);
            },
        }
        assert(self@ =~= old(self)@.insert(record_type_of(address), address));
    }

    /// Takes the address of a family out, if there is one.
    pub fn remove(&mut self, rtype: RecordType)
        ensures
            final(self)@ == old(self)@.remove(rtype),
    {
        match rtype {
            RecordType::A => {
                self.v4 = None;
            },
            RecordType::AAAA => {
                self.v6 = None;
            },
        }
        assert(self@ =~= old(self)@.remove(rtype));
    }

    /// The address of a family, if the snapshot has one.
    pub fn get(&self, rtype: RecordType) -> (found: Option<IpAddress>)
        ensures
            found == entry(self@, rtype),
            found matches Some(address) ==> record_type_of(address) == rtype,
    {
        match rtype {
            RecordType::A => match self.v4 {
                Some(bits) => Some(IpAddress::V4(bits)),
                None => None,
            },
            RecordType::AAAA => match self.v6 {
                Some(bits) => Some(IpAddress::V6(bits)),
                None => None,
            },
        }
    }

    /// Takes every address out.
    pub fn clear(&mut self)
        ensures
            final(self)@ == Map::<RecordType, IpAddress>::empty(),
    {
        self.v4 = None;
        self.v6 = None;
        assert(self@ =~= Map::<RecordType, IpAddress>::empty());
    }

    /// Whether the snapshot holds no address.
    pub fn is_empty(&self) -> (empty: bool)
        ensures
            empty == (self@ == Map::<RecordType, IpAddress>::empty()),
    {
        let empty = self.v4.is_none() && self.v6.is_none();
        proof {
            if empty {
                assert(self@ =~= Map::<RecordType, IpAddress>::empty());
            } else if self.v4 is Some {
                assert(self@.contains_key(RecordType::A));
            } else {
                assert(self@.contains_key(RecordType::AAAA));
            }
        }
        empty
    }

    /// Judges the reply of the discovery endpoint for the family `rtype` and
    /// keeps the address. Where none was resolved the family is left without
    /// an entry, so that an address of an earlier pass cannot pass for one
    /// of this pass.
    pub fn resolve(&mut self, rtype: RecordType, reply: Reply<AddressBody>) -> (outcome: Result<
        IpAddress,
        ResolutionFailure,
    >)
        ensures
            outcome == resolved_address(rtype, reply),
            final(self)@ == match outcome {
                Ok(address) => old(self)@.insert(rtype, address),
                Err(_) => old(self)@.remove(rtype),
            },
    {
        let outcome = get_external_ip(&rtype, reply);
        match &outcome {
            Ok(address) => {
                self.insert(*address);
            },
            Err(_) => {
                self.remove(rtype);
            },
        }
        outcome
    }

    /// Every address of a snapshot stands under the record type of its own
    /// family.
    pub proof fn lemma_families_agree(&self)
        ensures
            families_agree(self@),
    {
    }
}

/// Turns the addresses of the pass that ended into those of the previous
/// pass, and leaves the current snapshot empty for the next one. Nothing is
/// merged: what the previous snapshot held is gone.
pub fn rotate(previous: &mut AddressSnapshot, current: &mut AddressSnapshot)
    ensures
        final(previous)@ == old(current)@,
        final(current)@ == Map::<RecordType, IpAddress>::empty(),
{
    previous.v4 = current.v4;
    previous.v6 = current.v6;
    current.clear();
    assert(previous@ =~= old(current)@);
}

} // verus!
