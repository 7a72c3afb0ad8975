//! The two address-family record kinds and their canonical provider names.

use vstd::prelude::*;
use vstd::std_specs::convert::TryFromSpecImpl;
use vstd::string::*;

verus! {

/// The kind of an address record: `A` for IPv4, `AAAA` for IPv6.
///
/// The derived order puts `A` before `AAAA`; [`RecordType::rank`] is its
/// mathematical counterpart.
#[derive(Debug, Clone, Copy, PartialEq, Eq, Structural, Hash, PartialOrd, Ord)]
pub enum RecordType {
    A,
    AAAA,
}

/// A record type name other than `A` and `AAAA`.
#[derive(Debug, Clone, Copy, PartialEq, Eq, Structural)]
pub struct UnrecognizedType;

/// The record type that a provider string names, if it names one.
pub open spec fn parse_record_type(text: Seq<char>) -> Option<RecordType> {
    if text == RecordType::A.canonical() {
        Some(RecordType::A)
    } else if text == RecordType::AAAA.canonical() {
        Some(RecordType::AAAA)
    } else {
        None
    }
}

/// [`parse_record_type`] as the result that `try_from` gives.
pub open spec fn record_type_or_error(text: Seq<char>) -> Result<RecordType, UnrecognizedType> {
    match parse_record_type(text) {
        Some(rtype) => Ok(rtype),
        None => Err(UnrecognizedType),
    }
}

impl RecordType {
    /// The canonical provider string of this record type.
    pub open spec fn canonical(self) -> Seq<char> {
        match self {
            RecordType::A => "A"@,
            RecordType::AAAA => "AAAA"@,
        }
    }

    /// Position in the total order of record types.
    pub open spec fn rank(self) -> nat {
        match self {
            RecordType::A => 0,
            RecordType::AAAA => 1,
        }
    }

    /// The canonical provider string, as sent in outbound requests.
    pub fn as_str(&self) -> (text: &'static str)
        ensures
            text@ == self.canonical(),
    {
        match self {
            RecordType::A => "A",
            RecordType::AAAA => "AAAA",
        }
    }

    /// The canonical provider string as an owned `String`.
    pub fn to_string(&self) -> (text: String)
        ensures
            text@ == self.canonical(),
    {
        self.as_str().to_owned()
    }

    /// Whether `self` comes strictly before `other` in the total order.
    pub fn precedes(&self, other: &RecordType) -> (before: bool)
        ensures
            before == (self.rank() < other.rank()),
    {
        match (self, other) {
            (RecordType::A, RecordType::AAAA) => true,
            _ => false,
        }
    }
}

/// Parsing the canonical provider string. The match is exact and
/// case-sensitive; every other string is rejected, so that the other record
/// kinds of a zone can be passed over.
impl<'a> TryFrom<&'a str> for RecordType {
    type Error = UnrecognizedType;

    fn try_from(value: &'a str) -> (parsed: Result<RecordType, UnrecognizedType>)
        ensures
            parsed == record_type_or_error(value@),
    {
        let text = value.to_owned();
        if text == "A".to_owned() {
            Ok(RecordType::A)
        } else if text == "AAAA".to_owned() {
            Ok(RecordType::AAAA)
        } else {
            Err(UnrecognizedType)
        }
    }
}

impl<'a> TryFromSpecImpl<&'a str> for RecordType {
    open spec fn obeys_try_from_spec() -> bool {
        true
    }

    open spec fn try_from_spec(value: &'a str) -> Result<RecordType, UnrecognizedType> {
        record_type_or_error(value@)
    }
}

/// Rendering and parsing are inverse: the canonical string of every record
/// type parses back to that record type.
pub proof fn lemma_render_then_parse(rtype: RecordType)
    ensures
        parse_record_type(rtype.canonical()) == Some(rtype),
{
    reveal_strlit("A");
    reveal_strlit("AAAA");
    assert("A"@.len() != "AAAA"@.len());
}

/// A string parses to a record type exactly when it is that type's
/// canonical string.
pub proof fn lemma_parse_is_exact(text: Seq<char>, rtype: RecordType)
    ensures
        parse_record_type(text) == Some(rtype) <==> text == rtype.canonical(),
{
    lemma_render_then_parse(rtype);
}

/// The rank orders the record types totally: distinct types have distinct
/// ranks.
pub proof fn lemma_rank_is_total(a: RecordType, b: RecordType)
    ensures
        a.rank() == b.rank() <==> a == b,
        a.rank() < b.rank() || b.rank() < a.rank() || a == b,
{
}

} // verus!
