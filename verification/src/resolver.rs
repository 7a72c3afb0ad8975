//! Judging what an IP-discovery endpoint answered.

use vstd::prelude::*;
use crate::address::record_type_of;
use crate::address::IpAddress;
use crate::record_type::RecordType;
use crate::reply::is_success;
use crate::reply::status_is_success;
use crate::reply::Reply;

verus! {

/// The body of a discovery response: its text, and the address that the
/// whole text denotes, where it is the literal text of an IPv4 or IPv6
/// address.
#[derive(Debug, PartialEq, Eq)]
pub struct AddressBody {
    pub text: String,
    pub address: Option<IpAddress>,
}

/// Why a family has no external address in this pass. The engine treats all
/// of these alike: the family is skipped. They differ for the log only.
#[derive(Debug, PartialEq, Eq)]
pub enum ResolutionFailure {
    /// No response arrived.
    Unreachable,
    /// The endpoint answered with a status other than success.
    Rejected { status: u16 },
    /// The body could not be read.
    Unreadable,
    /// The body is not the text of an address.
    Unparsable { body: String },
    /// The body is an address of the other family than the one asked for.
    WrongFamily { address: IpAddress },
}

/// What a discovery reply comes to for the family `rtype`: the address, if
/// the endpoint answered with success and the text of an address of that
/// family, and else the first thing that is wrong.
pub open spec fn resolved_address(rtype: RecordType, reply: Reply<AddressBody>) -> Result<
    IpAddress,
    ResolutionFailure,
> {
    match reply {
        Reply::Unreachable => Err(ResolutionFailure::Unreachable),
        Reply::Received { status, body } => if !is_success(status) {
            Err(ResolutionFailure::Rejected { status })
        } else {
            match body {
                None => Err(ResolutionFailure::Unreadable),
                Some(body) => match body.address {
                    None => Err(ResolutionFailure::Unparsable { body: body.text }),
                    Some(address) => if record_type_of(address) == rtype {
                        Ok(address)
                    } else {
                        Err(ResolutionFailure::WrongFamily { address })
                    },
                },
            }
        },
    }
}

/// Judges the reply of the discovery endpoint that was asked for the
/// external address of the family `rtype`. An address of the other family is
/// a failure; it is never taken in place of the one asked for.
pub fn get_external_ip(rtype: &RecordType, reply: Reply<AddressBody>) -> (outcome: Result<
    IpAddress,
    ResolutionFailure,
>)
    ensures
        outcome == resolved_address(*rtype, reply),
        outcome matches Ok(address) ==> record_type_of(address) == *rtype,
{
    match reply {
        Reply::Unreachable => Err(ResolutionFailure::Unreachable),
        Reply::Received { status, body } => {
            if !status_is_success(status) {
                return Err(ResolutionFailure::Rejected { status });
            }
            let body = match body {
                Some(body) => body,
                None => return Err(ResolutionFailure::Unreadable),
            };
            match body.address {
                None => Err(ResolutionFailure::Unparsable { body: body.text }),
                Some(address) => {
                    if RecordType::from_ip(&address) == *rtype {
                        Ok(address)
                    } else {
                        Err(ResolutionFailure::WrongFamily { address })
                    }
                },
            }
        },
    }
}

/// An address is resolved exactly when a response arrived, its status is a
/// success, and its body is the text of an address of the family asked for;
/// the address resolved is then the one in the body.
pub proof fn lemma_resolved_iff(rtype: RecordType, reply: Reply<AddressBody>, address: IpAddress)
    ensures
        resolved_address(rtype, reply) == Ok::<IpAddress, ResolutionFailure>(address) <==> {
            &&& reply matches Reply::Received { status, body: Some(body) }
            &&& is_success(status)
            &&& body.address == Some(address)
            &&& record_type_of(address) == rtype
        },
{
}

} // verus!
