//! Time-to-live values: the provider's "automatic" sentinel or an explicit
//! number of seconds within the accepted range.

use vstd::prelude::*;
use vstd::std_specs::convert::FromSpecImpl;
use vstd::std_specs::convert::TryFromSpecImpl;
use crate::decimal::decimal_text;
use crate::decimal::render_decimal;

verus! {

/// The wire value that stands for an automatic TTL.
pub const TTL_AUTOMATIC: u32 = 1;

/// The smallest explicit TTL, in seconds.
pub const TTL_MIN_SECONDS: u32 = 60;

/// The largest explicit TTL, in seconds.
pub const TTL_MAX_SECONDS: u32 = 86400;

/// A validated TTL.
#[derive(Debug, Clone, Copy, PartialEq, Eq, Structural)]
pub enum Ttl {
    /// The provider picks the TTL.
    Auto,
    /// An explicit TTL in seconds, within `TTL_MIN_SECONDS..=TTL_MAX_SECONDS`.
    Seconds(u32),
}

/// A TTL value that is neither the automatic sentinel nor within the
/// explicit range; it carries the rejected value.
#[derive(Debug, Clone, Copy, PartialEq, Eq, Structural)]
pub struct InvalidTtl {
    pub value: i64,
}

/// The TTL that a wire integer denotes, if it denotes one.
pub open spec fn ttl_of(raw: int) -> Option<Ttl> {
    if raw == TTL_AUTOMATIC {
        Some(Ttl::Auto)
    } else if TTL_MIN_SECONDS <= raw <= TTL_MAX_SECONDS {
        Some(Ttl::Seconds(raw as u32))
    } else {
        None
    }
}

/// [`ttl_of`] as the result that validation gives for a value that fits in
/// 64 signed bits.
pub open spec fn ttl_or_error(raw: int) -> Result<Ttl, InvalidTtl> {
    match ttl_of(raw) {
        Some(ttl) => Ok(ttl),
        None => Err(InvalidTtl { value: raw as i64 }),
    }
}

impl Ttl {
    /// Whether the value respects the explicit range.
    pub open spec fn wf(self) -> bool {
        match self {
            Ttl::Auto => true,
            Ttl::Seconds(seconds) => TTL_MIN_SECONDS <= seconds <= TTL_MAX_SECONDS,
        }
    }

    /// The integer sent to the provider for this TTL.
    pub open spec fn wire(self) -> int {
        match self {
            Ttl::Auto => TTL_AUTOMATIC as int,
            Ttl::Seconds(seconds) => seconds as int,
        }
    }

    /// Validates a wire integer of any sign.
    pub fn validate(raw: i64) -> (checked: Result<Ttl, InvalidTtl>)
        ensures
            checked == ttl_or_error(raw as int),
            checked matches Ok(ttl) ==> ttl.wf() && ttl.wire() == raw,
    {
        if raw == 1 {
            Ok(Ttl::Auto)
        } else if 60 <= raw && raw <= 86400 {
            Ok(Ttl::Seconds(raw as u32))
        } else {
            Err(InvalidTtl { value: raw })
        }
    }

    /// The wire integer in decimal, as the provider prints it.
    pub fn to_string(&self) -> (text: String)
        ensures
            text@ == decimal_text(self.wire() as nat),
    {
        render_decimal(u32::from(*self))
    }
}

impl TryFrom<u32> for Ttl {
    type Error = InvalidTtl;

    fn try_from(value: u32) -> (checked: Result<Ttl, InvalidTtl>)
        ensures
            checked == ttl_or_error(value as int),
            checked matches Ok(ttl) ==> ttl.wf() && ttl.wire() == value,
    {
        if value == TTL_AUTOMATIC {
            Ok(Ttl::Auto)
        } else if TTL_MIN_SECONDS <= value && value <= TTL_MAX_SECONDS {
            Ok(Ttl::Seconds(value))
        } else {
            Err(InvalidTtl { value: value as i64 })
        }
    }
}

impl TryFromSpecImpl<u32> for Ttl {
    open spec fn obeys_try_from_spec() -> bool {
        true
    }

    open spec fn try_from_spec(value: u32) -> Result<Ttl, InvalidTtl> {
        ttl_or_error(value as int)
    }
}

impl From<Ttl> for u32 {
    fn from(value: Ttl) -> (raw: u32)
        ensures
            raw == value.wire(),
    {
        match value {
            Ttl::Auto => TTL_AUTOMATIC,
            Ttl::Seconds(seconds) => seconds,
        }
    }
}

impl FromSpecImpl<Ttl> for u32 {
    open spec fn obeys_from_spec() -> bool {
        true
    }

    open spec fn from_spec(value: Ttl) -> u32 {
        value.wire() as u32
    }
}

impl Default for Ttl {
    fn default() -> (ttl: Ttl)
        ensures
            ttl == Ttl::Auto,
    {
        Ttl::Auto
    }
}

/// The wire integer of a valid TTL validates back to that TTL.
pub proof fn lemma_wire_then_validate(ttl: Ttl)
    requires
        ttl.wf(),
    ensures
        ttl_of(ttl.wire()) == Some(ttl),
{
}

/// A wire integer validates to a TTL exactly when that TTL is valid and has
/// that wire integer; so at most one TTL answers to each integer.
pub proof fn lemma_validate_is_exact(raw: int, ttl: Ttl)
    ensures
        ttl_of(raw) == Some(ttl) <==> (ttl.wf() && ttl.wire() == raw),
{
}

/// The accepted wire integers are the sentinel and the explicit range, and
/// nothing else.
pub proof fn lemma_accepted_values(raw: int)
    ensures
        ttl_of(raw) is Some <==> (raw == 1 || 60 <= raw <= 86400),
{
}

} // verus!
