//! Judging the entries of the provider's record list: which of them are
//! address records that reconciliation can work with.

use vstd::prelude::*;
use crate::address::record_type_of;
use crate::address::IpAddress;
use crate::fields::RecordFields;
use crate::fields::RecordFieldsView;
use crate::record::record_views;
use crate::record::CfRecord;
use crate::record::CfRecordView;
use crate::record::Record;
use crate::record::RecordView;
use crate::record_type::parse_record_type;
use crate::record_type::RecordType;
use crate::ttl::ttl_of;
use crate::ttl::Ttl;
use crate::ttl::TTL_MAX_SECONDS;

verus! {

/// A field that every record object of the provider holds.
#[derive(Debug, Clone, Copy, PartialEq, Eq, Structural)]
pub enum Field {
    Id,
    Type,
    Name,
    Ttl,
    Content,
    Proxied,
}

/// Why an entry of the provider's list is not taken as an address record.
/// None of these stops the list from being read: the entry is left out.
#[derive(Debug, Clone, Copy, PartialEq, Eq, Structural)]
pub enum RecordError {
    /// The entry lacks the field, or holds a value of another JSON type there.
    Missing(Field),
    /// The entry is of a kind other than `A` and `AAAA`.
    UnrecognizedType,
    /// The TTL is neither the automatic sentinel nor within the explicit range.
    InvalidTtl { value: u64 },
    /// The content is no address at all.
    UnparsableAddress,
    /// The content is an address of the other family than the entry's type.
    WrongFamily,
}

/// The judgement on one entry. `address` is what the entry's content
/// denotes, where it is the text of an IPv4 or IPv6 address.
///
/// The fields are looked at in the order `id`, `type`, `name`, `ttl`,
/// `content`, `proxied`, and the first one found wanting names the error.
pub open spec fn checked_record(fields: RecordFieldsView, address: Option<IpAddress>) -> Result<
    CfRecordView,
    RecordError,
> {
    if fields.id is None {
        Err(RecordError::Missing(Field::Id))
    } else if fields.rtype is None {
        Err(RecordError::Missing(Field::Type))
    } else if parse_record_type(fields.rtype->0) is None {
        Err(RecordError::UnrecognizedType)
    } else if fields.name is None {
        Err(RecordError::Missing(Field::Name))
    } else if fields.ttl is None {
        Err(RecordError::Missing(Field::Ttl))
    } else if ttl_of(fields.ttl->0 as int) is None {
        Err(RecordError::InvalidTtl { value: fields.ttl->0 })
    } else if fields.content is None {
        Err(RecordError::Missing(Field::Content))
    } else if address is None {
        Err(RecordError::UnparsableAddress)
    } else if record_type_of(address->0) != parse_record_type(fields.rtype->0)->0 {
        Err(RecordError::WrongFamily)
    } else if fields.proxied is None {
        Err(RecordError::Missing(Field::Proxied))
    } else {
        Ok(
            CfRecordView {
                id: fields.id->0,
                record: RecordView {
                    name: fields.name->0,
                    ttl: ttl_of(fields.ttl->0 as int)->0,
                    content: address->0,
                    proxied: fields.proxied->0,
                },
            },
        )
    }
}

/// The record that an entry is taken as, if it is taken.
pub open spec fn accepted_record(entry: (RecordFields, Option<IpAddress>)) -> Option<CfRecordView> {
    match checked_record(entry.0@, entry.1) {
        Ok(record) => Some(record),
        Err(_) => None,
    }
}

/// The records that a list of entries yields: those that are taken, in the
/// order of the list.
pub open spec fn accepted_records(entries: Seq<(RecordFields, Option<IpAddress>)>) -> Seq<
    CfRecordView,
> {
    entries.filter_map(|entry: (RecordFields, Option<IpAddress>)| accepted_record(entry))
}

/// Judges one entry of the provider's list. `address` is what the entry's
/// content denotes, where it is the text of an IPv4 or IPv6 address.
pub fn cf_parse_record(fields: &RecordFields, address: Option<IpAddress>) -> (parsed: Result<
    CfRecord,
    RecordError,
>)
    ensures
        match parsed {
            Ok(record) => checked_record(fields@, address) == Ok::<CfRecordView, RecordError>(
                record@,
            ),
            Err(error) => checked_record(fields@, address) == Err::<CfRecordView, RecordError>(
                error,
            ),
        },
{
    let id = match &fields.id {
        Some(id) => id.clone(),
        None => return Err(RecordError::Missing(Field::Id)),
    };
    let rtype = match &fields.rtype {
        Some(text) => match RecordType::try_from(text.as_str()) {
            Ok(rtype) => rtype,
            Err(_) => return Err(RecordError::UnrecognizedType),
        },
        None => return Err(RecordError::Missing(Field::Type)),
    };
    let name = match &fields.name {
        Some(name) => name.clone(),
        None => return Err(RecordError::Missing(Field::Name)),
    };
    let ttl = match fields.ttl {
        Some(value) => {
            if value > TTL_MAX_SECONDS as u64 {
                return Err(RecordError::InvalidTtl { value });
            }
            match Ttl::try_from(value as u32) {
                Ok(ttl) => ttl,
                Err(_) => return Err(RecordError::InvalidTtl { value }),
            }
        },
        None => return Err(RecordError::Missing(Field::Ttl)),
    };
    if fields.content.is_none() {
        return Err(RecordError::Missing(Field::Content));
    }
    let content = match address {
        Some(content) => content,
        None => return Err(RecordError::UnparsableAddress),
    };
    if RecordType::from_ip(&content) != rtype {
        return Err(RecordError::WrongFamily);
    }
    let proxied = match fields.proxied {
        Some(proxied) => proxied,
        None => return Err(RecordError::Missing(Field::Proxied)),
    };
    Ok(CfRecord { id, record: Record { name, ttl, content, proxied } })
}

/// Keeps the entries that are address records, in the order of the list, and
/// leaves the others out: an entry of another kind, with a TTL out of range
/// or with a content that is no address of its family costs only itself.
pub fn cf_get_records(entries: &Vec<(RecordFields, Option<IpAddress>)>) -> (records: Vec<CfRecord>)
    ensures
        record_views(records@) == accepted_records(entries@),
{
    let mut records: Vec<CfRecord> = Vec::new();
    let mut index: usize = 0;
    while index < entries.len()
        invariant
            index <= entries.len(),
            record_views(records@) == accepted_records(entries@.take(index as int)),
        decreases entries.len() - index,
    {
        proof {
            entries@.lemma_filter_map_take_succ(
                |entry: (RecordFields, Option<IpAddress>)| accepted_record(entry),
                index as int,
            );
        }
        let ghost before = record_views(records@);
        match cf_parse_record(&entries[index].0, entries[index].1) {
            Ok(record) => {
                records.push(record);
                assert(record_views(records@) =~= before + seq![record@]);
            },
            Err(_) => {},
        }
        index += 1;
    }
    assert(entries@.take(index as int) =~= entries@);
    records
}

/// An entry is taken exactly when it has every field, its type is `A` or
/// `AAAA`, its TTL is valid and its content is an address of the family
/// that the type names. The record then holds the entry's values, and is
/// well formed.
pub proof fn lemma_record_taken_iff(fields: RecordFieldsView, address: Option<IpAddress>)
    ensures
        checked_record(fields, address) is Ok <==> {
            &&& fields.id is Some
            &&& fields.rtype is Some
            &&& fields.name is Some
            &&& fields.ttl is Some
            &&& fields.content is Some
            &&& fields.proxied is Some
            &&& address is Some
            &&& parse_record_type(fields.rtype->0) == Some(record_type_of(address->0))
            &&& ttl_of(fields.ttl->0 as int) is Some
        },
        checked_record(fields, address) matches Ok(taken) ==> {
            &&& taken.record.wf()
            &&& taken.id == fields.id->0
            &&& taken.record.name == fields.name->0
            &&& taken.record.ttl.wire() == fields.ttl->0
            &&& taken.record.content == address->0
            &&& taken.record.proxied == fields.proxied->0
            &&& parse_record_type(fields.rtype->0) == Some(taken.record.rtype())
        },
{
}

/// Reading a list never yields more records than it has entries.
pub proof fn lemma_records_do_not_outnumber_entries(
    entries: Seq<(RecordFields, Option<IpAddress>)>,
)
    ensures
        accepted_records(entries).len() <= entries.len(),
    decreases entries.len(),
{
    if entries.len() > 0 {
        lemma_records_do_not_outnumber_entries(entries.drop_last());
    }
}

/// An entry that is not taken changes nothing for the others: the records
/// of a list with such an entry anywhere in it are those of the list
/// without it.
pub proof fn lemma_rejected_entry_is_skipped(
    before: Seq<(RecordFields, Option<IpAddress>)>,
    entry: (RecordFields, Option<IpAddress>),
    after: Seq<(RecordFields, Option<IpAddress>)>,
)
    requires
        accepted_record(entry) is None,
    ensures
        accepted_records(before + seq![entry] + after) == accepted_records(before + after),
{
    let judge = |entry: (RecordFields, Option<IpAddress>)| accepted_record(entry);
    lemma_filter_map_concat(before + seq![entry], after, judge);
    lemma_filter_map_concat(before, seq![entry], judge);
    lemma_filter_map_concat(before, after, judge);
    Seq::lemma_filter_map_singleton(entry, judge);
    assert(accepted_records(before + seq![entry]) =~= accepted_records(before));
}

/// `filter_map` goes through concatenation.
proof fn lemma_filter_map_concat<A, B>(left: Seq<A>, right: Seq<A>, f: spec_fn(A) -> Option<B>)
    ensures
        (left + right).filter_map(f) == left.filter_map(f) + right.filter_map(f),
    decreases right.len(),
{
    if right.len() == 0 {
        assert(left + right =~= left);
        assert(left.filter_map(f) + right.filter_map(f) =~= left.filter_map(f));
    } else {
        assert((left + right).drop_last() =~= left + right.drop_last());
        assert((left + right).last() == right.last());
        lemma_filter_map_concat(left, right.drop_last(), f);
        match f(right.last()) {
            Some(kept) => {
                assert(left.filter_map(f) + (right.drop_last().filter_map(f) + seq![kept])
                    =~= (left.filter_map(f) + right.drop_last().filter_map(f)) + seq![kept]);
            },
            None => {},
        }
    }
}

} // verus!
