//! Address records: the desired or actual DNS state of one host in one
//! address family, and the provider's stored form of it.

use vstd::prelude::*;
use crate::address::record_type_of;
use crate::address::IpAddress;
use crate::record_type::RecordType;
use crate::ttl::Ttl;

verus! {

/// A DNS address record. Its record type is not stored: it follows from the
/// family of `content`, see [`Record::rtype`].
#[derive(Debug, PartialEq, Eq)]
pub struct Record {
    pub name: String,
    pub ttl: Ttl,
    pub content: IpAddress,
    pub proxied: bool,
}

/// The mathematical value of a [`Record`].
pub struct RecordView {
    pub name: Seq<char>,
    pub ttl: Ttl,
    pub content: IpAddress,
    pub proxied: bool,
}

impl View for Record {
    type V = RecordView;

    open spec fn view(&self) -> RecordView {
        RecordView {
            name: self.name@,
            ttl: self.ttl,
            content: self.content,
            proxied: self.proxied,
        }
    }
}

impl RecordView {
    /// The record type, by the family of the address.
    pub open spec fn rtype(self) -> RecordType {
        record_type_of(self.content)
    }

    /// Whether the TTL respects its range.
    pub open spec fn wf(self) -> bool {
        self.ttl.wf()
    }

    /// Whether the record is the one of `host` in the family `rtype`.
    pub open spec fn answers(self, host: Seq<char>, rtype: RecordType) -> bool {
        self.name == host && self.rtype() == rtype
    }
}

impl Record {
    /// The record type: `A` for an IPv4 address, `AAAA` for an IPv6 address.
    pub fn rtype(&self) -> (rtype: RecordType)
        ensures
            rtype == self@.rtype(),
    {
        RecordType::from_ip(&self.content)
    }
}

impl Clone for Record {
    fn clone(&self) -> (copy: Record)
        ensures
            copy@ == self@,
    {
        Record {
            name: self.name.clone(),
            ttl: self.ttl,
            content: self.content,
            proxied: self.proxied,
        }
    }
}

/// A record as the provider stores it: the provider's identifier, which
/// update calls name, and the record itself.
#[derive(Debug, PartialEq, Eq)]
pub struct CfRecord {
    pub id: String,
    pub record: Record,
}

/// The mathematical value of a [`CfRecord`].
pub struct CfRecordView {
    pub id: Seq<char>,
    pub record: RecordView,
}

impl View for CfRecord {
    type V = CfRecordView;

    open spec fn view(&self) -> CfRecordView {
        CfRecordView { id: self.id@, record: self.record@ }
    }
}

impl Clone for CfRecord {
    fn clone(&self) -> (copy: CfRecord)
        ensures
            copy@ == self@,
    {
        CfRecord { id: self.id.clone(), record: self.record.clone() }
    }
}

/// The mathematical values of a list of provider records, in order.
pub open spec fn record_views(records: Seq<CfRecord>) -> Seq<CfRecordView> {
    records.map_values(|record: CfRecord| record@)
}

/// Whatever is stored in a record, its type is the one its address calls
/// for: a record of type `A` holds an IPv4 address and a record of type
/// `AAAA` an IPv6 address.
pub proof fn lemma_type_follows_address(record: RecordView)
    ensures
        record.rtype() == RecordType::A <==> record.content is V4,
        record.rtype() == RecordType::AAAA <==> record.content is V6,
{
}

} // verus!
