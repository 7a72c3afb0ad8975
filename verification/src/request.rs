//! The requests that go to the DNS provider, and what its replies to a
//! creation or an update come to.

use vstd::prelude::*;
use vstd::string::*;
use crate::address::IpAddress;
use crate::record::Record;
use crate::record_type::RecordType;
use crate::reply::is_success;
use crate::reply::status_is_success;
use crate::reply::Reply;

verus! {

/// The address of the DNS-records collection of a zone.
pub open spec fn records_url(zone_id: Seq<char>) -> Seq<char> {
    "https://api.cloudflare.com/client/v4/zones/"@ + zone_id + "/dns_records"@
}

/// The address of one record of a zone.
pub open spec fn record_url(zone_id: Seq<char>, record_id: Seq<char>) -> Seq<char> {
    records_url(zone_id) + "/"@ + record_id
}

/// The value of the `Authorization` header for a token.
pub open spec fn bearer(api_token: Seq<char>) -> Seq<char> {
    "Bearer "@ + api_token
}

/// A `PATCH` to a record's resource. Its body holds `content` and nothing
/// else: an update never touches the name, the TTL or the proxy flag.
#[derive(Debug, PartialEq, Eq)]
pub struct UpdateRequest {
    pub url: String,
    pub content: IpAddress,
}

/// A `POST` to the records collection, with the five fields of its body.
#[derive(Debug, PartialEq, Eq)]
pub struct CreateRequest {
    pub url: String,
    pub name: String,
    pub rtype: RecordType,
    pub content: IpAddress,
    pub ttl: u32,
    pub proxied: bool,
}

/// Why a creation or an update did not take place.
#[derive(Debug, PartialEq, Eq)]
pub enum ProviderFailure {
    /// No response arrived.
    Unreachable,
    /// The provider answered with a status other than success; the body is
    /// kept for diagnostics where it could be read.
    Rejected { status: u16, body: Option<String> },
}

/// What the reply to a creation or an update comes to: the status alone
/// decides.
pub open spec fn provider_result(reply: Reply<String>) -> Result<(), ProviderFailure> {
    match reply {
        Reply::Unreachable => Err(ProviderFailure::Unreachable),
        Reply::Received { status, body } => if is_success(status) {
            Ok(())
        } else {
            Err(ProviderFailure::Rejected { status, body })
        },
    }
}

/// The address to `GET` the records of a zone from, and to `POST` new
/// records to.
pub fn cf_records_url(zone_id: &str) -> (url: String)
    ensures
        url@ == records_url(zone_id@),
{
    let mut url = "https://api.cloudflare.com/client/v4/zones/".to_owned();
    url.append(zone_id);
    url.append("/dns_records");
    url
}

/// The value of the `Authorization` header that every request carries.
pub fn cf_authorization(api_token: &str) -> (header: String)
    ensures
        header@ == bearer(api_token@),
{
    let mut header = "Bearer ".to_owned();
    header.append(api_token);
    header
}

/// The request that sets the address of the record `record_id` to `ip`.
pub fn cf_update_record_ip(zone_id: &str, record_id: &str, ip: &IpAddress) -> (request:
    UpdateRequest)
    ensures
        request.url@ == record_url(zone_id@, record_id@),
        request.content == *ip,
{
    let mut url = cf_records_url(zone_id);
    url.append("/");
    url.append(record_id);
    UpdateRequest { url, content: *ip }
}

/// The request that creates `record`. The type it names is the one that the
/// record's address calls for, and the TTL is in its wire form.
pub fn cf_create_record(record: &Record, zone_id: &str) -> (request: CreateRequest)
    ensures
        request.url@ == records_url(zone_id@),
        request.name@ == record@.name,
        request.rtype == record@.rtype(),
        request.content == record@.content,
        request.ttl == record@.ttl.wire(),
        request.proxied == record@.proxied,
{
    CreateRequest {
        url: cf_records_url(zone_id),
        name: record.name.clone(),
        rtype: record.rtype(),
        content: record.content,
        ttl: u32::from(record.ttl),
        proxied: record.proxied,
    }
}

/// Judges the reply to a creation or an update.
pub fn cf_outcome(reply: Reply<String>) -> (outcome: Result<(), ProviderFailure>)
    ensures
        outcome == provider_result(reply),
{
    match reply {
        Reply::Unreachable => Err(ProviderFailure::Unreachable),
        Reply::Received { status, body } => {
            if status_is_success(status) {
                Ok(())
            } else {
                Err(ProviderFailure::Rejected { status, body })
            }
        },
    }
}

} // verus!
