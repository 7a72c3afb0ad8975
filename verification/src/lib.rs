//! Dynamic-DNS reconciliation for a zone at Cloudflare: the record model, the
//! reading of the provider's record list, and the decisions of one
//! reconciliation pass, each with a machine-checked contract.
//!
//! The library sends and receives nothing. The caller makes the HTTP
//! exchanges and hands each outcome over as a [`reply::Reply`]; the library
//! judges it and says what to do next. Addresses cross this boundary as
//! numbers ([`address::IpAddress`]): bringing the text of an address into
//! that form, and back, is the caller's part.
//!
//! One pass, as a caller drives it:
//!
//! 1. for each configured family, [`snapshot::AddressSnapshot::resolve`] with
//!    the reply of the discovery endpoint;
//! 2. [`fields::cf_list_fields`] with the reply to the list request;
//! 3. [`engine::reconcile_pass`], which yields the steps of the pass;
//! 4. for each step that is an update or a creation, the request from
//!    [`request::cf_update_record_ip`] or [`request::cf_create_record`], and
//!    [`request::cf_outcome`] with the reply;
//! 5. [`engine::finish_pass`].

pub mod address;
pub mod config;
pub mod decimal;
pub mod engine;
pub mod fields;
pub mod guarantees;
pub mod hosts;
pub mod idempotence;
pub mod json;
pub mod provider;
pub mod record;
pub mod record_type;
pub mod reply;
pub mod request;
pub mod resolver;
pub mod snapshot;
pub mod text;
pub mod ttl;
