//! The configuration of a run, and what makes it one that a run can start
//! from.

use vstd::prelude::*;
use vstd::string::*;
use crate::decimal::parse_unsigned;
use crate::decimal::unsigned_of;
use crate::hosts::host_list;
use crate::hosts::host_names;
use crate::hosts::parse_hosts;
use crate::record_type::RecordType;

verus! {

/// A configuration that no reconciliation can start from.
#[derive(Debug, Clone, Copy, PartialEq, Eq, Structural)]
pub enum ConfigError {
    /// The zone identifier is not given.
    MissingZone,
    /// The API credential is not given.
    MissingToken,
    /// The host list is not given.
    MissingHosts,
    /// Neither an IPv4 nor an IPv6 discovery endpoint is given.
    NoEndpoint,
    /// The repeat interval is not an unsigned number of seconds.
    BadInterval,
    /// The permission to create records is neither `true` nor `false`.
    BadCreateFlag,
}

/// The discovery endpoints by record type. There is always one at least.
#[derive(Debug, PartialEq, Eq)]
pub struct Endpoints {
    ipv4: Option<String>,
    ipv6: Option<String>,
}

impl View for Endpoints {
    type V = Map<RecordType, Seq<char>>;

    closed spec fn view(&self) -> Map<RecordType, Seq<char>> {
        endpoint_map(self.ipv4, self.ipv6)
    }
}

/// The mapping that two optional endpoints make.
pub open spec fn endpoint_map(ipv4: Option<String>, ipv6: Option<String>) -> Map<
    RecordType,
    Seq<char>,
> {
    let none = Map::<RecordType, Seq<char>>::empty();
    let first = match ipv4 {
        Some(url) => none.insert(RecordType::A, url@),
        None => none,
    };
    match ipv6 {
        Some(url) => first.insert(RecordType::AAAA, url@),
        None => first,
    }
}

/// The record types of a mapping, `A` before `AAAA`.
pub open spec fn families_in_order<V>(entries: Map<RecordType, V>) -> Seq<RecordType> {
    let first = if entries.contains_key(RecordType::A) {
        seq![RecordType::A]
    } else {
        Seq::empty()
    };
    if entries.contains_key(RecordType::AAAA) {
        first.push(RecordType::AAAA)
    } else {
        first
    }
}

impl Endpoints {
    #[verifier::type_invariant]
    spec fn has_one(self) -> bool {
        self.ipv4 is Some || self.ipv6 is Some
    }

    /// The endpoints of a configuration. With neither given there is
    /// nothing to reconcile, and the configuration is refused.
    pub fn new(ipv4: Option<String>, ipv6: Option<String>) -> (made: Result<Endpoints, ConfigError>)
        ensures
            made is Err <==> (ipv4 is None && ipv6 is None),
            made matches Ok(endpoints) ==> endpoints@ == endpoint_map(ipv4, ipv6),
    {
        if ipv4.is_none() && ipv6.is_none() {
            return Err(ConfigError::NoEndpoint);
        }
        Ok(Endpoints { ipv4, ipv6 })
    }

    /// The endpoint of a family, if one is configured.
    pub fn get(&self, rtype: RecordType) -> (found: Option<&String>)
        ensures
            match found {
                Some(url) => self@.contains_key(rtype) && self@[rtype] == url@,
                None => !self@.contains_key(rtype),
            },
    {
        match rtype {
            RecordType::A => self.ipv4.as_ref(),
            RecordType::AAAA => self.ipv6.as_ref(),
        }
    }

    /// The families that have an endpoint, in the order of the record
    /// types: the order in which a pass resolves them. It is never empty.
    pub fn families(&self) -> (families: Vec<RecordType>)
        ensures
            families@ == families_in_order(self@),
            families@.len() >= 1,
            self@.contains_key(RecordType::A) || self@.contains_key(RecordType::AAAA),
    {
        proof {
            use_type_invariant(self);
        }
        let mut families: Vec<RecordType> = Vec::new();
        if self.ipv4.is_some() {
            families.push(RecordType::A);
        }
        if self.ipv6.is_some() {
            families.push(RecordType::AAAA);
        }
        assert(families@ =~= families_in_order(self@));
        families
    }
}

/// The boolean that a text spells: `true` or `false`, written exactly so.
pub open spec fn flag_of(text: Seq<char>) -> Option<bool> {
    if text == "true"@ {
        Some(true)
    } else if text == "false"@ {
        Some(false)
    } else {
        None
    }
}

/// Reads a boolean setting.
pub fn parse_flag(text: &str) -> (parsed: Option<bool>)
    ensures
        parsed == flag_of(text@),
{
    let given = text.to_owned();
    if given == "true".to_owned() {
        Some(true)
    } else if given == "false".to_owned() {
        Some(false)
    } else {
        None
    }
}

/// The values of a configuration as they are found, each absent or a text.
#[derive(Debug, Clone, PartialEq, Eq)]
pub struct RawSettings {
    pub zone_id: Option<String>,
    pub api_token: Option<String>,
    pub hosts: Option<String>,
    pub ipv4_endpoint: Option<String>,
    pub ipv6_endpoint: Option<String>,
    pub repeat_interval: Option<String>,
    pub create_records: Option<String>,
}

/// A configuration that a run can start from.
#[derive(Debug, PartialEq, Eq)]
pub struct Settings {
    pub zone_id: String,
    pub api_token: String,
    pub hosts: Vec<String>,
    pub endpoints: Endpoints,
    /// Seconds between two passes; zero for a single pass.
    pub repeat_interval: u64,
    pub create_records_allowed: bool,
}

/// The repeat interval that a configuration asks for: zero where none is
/// given, and nothing where what is given is no unsigned number.
pub open spec fn interval_of(given: Option<String>) -> Option<u64> {
    match given {
        Some(text) => unsigned_of(text@),
        None => Some(0),
    }
}

/// Whether a configuration permits the creation of records: it does not
/// where nothing is given; nothing where what is given is no boolean.
pub open spec fn creation_of(given: Option<String>) -> Option<bool> {
    match given {
        Some(text) => flag_of(text@),
        None => Some(false),
    }
}

/// What is wrong with a configuration, if anything is: the first fault in
/// the order zone, credential, hosts, endpoints, interval, permission.
pub open spec fn fault_of(raw: RawSettings) -> Option<ConfigError> {
    if raw.zone_id is None {
        Some(ConfigError::MissingZone)
    } else if raw.api_token is None {
        Some(ConfigError::MissingToken)
    } else if raw.hosts is None {
        Some(ConfigError::MissingHosts)
    } else if raw.ipv4_endpoint is None && raw.ipv6_endpoint is None {
        Some(ConfigError::NoEndpoint)
    } else if interval_of(raw.repeat_interval) is None {
        Some(ConfigError::BadInterval)
    } else if creation_of(raw.create_records) is None {
        Some(ConfigError::BadCreateFlag)
    } else {
        None
    }
}

impl Settings {
    /// Validates a configuration. The zone, the credential, the host list
    /// and one endpoint are required; the interval defaults to zero and the
    /// permission to create records to `false`.
    pub fn from_raw(raw: RawSettings) -> (made: Result<Settings, ConfigError>)
        ensures
            match made {
                Ok(settings) => {
                    &&& fault_of(raw) is None
                    &&& settings.zone_id == raw.zone_id->0
                    &&& settings.api_token == raw.api_token->0
                    &&& host_names(settings.hosts@) == host_list(raw.hosts->0@)
                    &&& settings.endpoints@ == endpoint_map(raw.ipv4_endpoint, raw.ipv6_endpoint)
                    &&& Some(settings.repeat_interval) == interval_of(raw.repeat_interval)
                    &&& Some(settings.create_records_allowed) == creation_of(raw.create_records)
                },
                Err(fault) => fault_of(raw) == Some(fault),
            },
    {
        let zone_id = match raw.zone_id {
            Some(zone_id) => zone_id,
            None => return Err(ConfigError::MissingZone),
        };
        let api_token = match raw.api_token {
            Some(api_token) => api_token,
            None => return Err(ConfigError::MissingToken),
        };
        let hosts = match &raw.hosts {
            Some(text) => parse_hosts(text.as_str()),
            None => return Err(ConfigError::MissingHosts),
        };
        let endpoints = match Endpoints::new(raw.ipv4_endpoint, raw.ipv6_endpoint) {
            Ok(endpoints) => endpoints,
            Err(_) => return Err(ConfigError::NoEndpoint),
        };
        let repeat_interval = match &raw.repeat_interval {
            Some(text) => match parse_unsigned(text.as_str()) {
                Some(seconds) => seconds,
                None => return Err(ConfigError::BadInterval),
            },
            None => 0,
        };
        let create_records_allowed = match &raw.create_records {
            Some(text) => match parse_flag(text.as_str()) {
                Some(allowed) => allowed,
                None => return Err(ConfigError::BadCreateFlag),
            },
            None => false,
        };
        Ok(Settings { zone_id, api_token, hosts, endpoints, repeat_interval, create_records_allowed })
    }
}

} // verus!
