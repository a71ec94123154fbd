//! Security level and permission value types.  The enforcement machinery
//! around them (permission sets, audit logging) lives with the caller; the
//! library only fixes the closed set of levels, their textual forms, and the
//! shape of a permission.

use vstd::prelude::*;

verus! {

use crate::text::str_eq;
use vstd::string::StringExecFns;

/// How strict the surrounding system's access checks are.
#[derive(Debug, Clone, Copy, PartialEq, Eq, Structural)]
pub enum SecurityLevel {
    /// Minimal restrictions.
    Low,
    /// Standard restrictions.
    Standard,
    /// High restrictions.
    High,
    /// Maximum restrictions.
    Maximum,
}

/// An allowed operation on a resource.
#[derive(Debug, Clone, PartialEq, Eq, Hash)]
pub struct Permission {
    /// Resource type (file, network, memory, and so on).
    pub resource_type: String,
    /// Operation (read, write, execute, and so on).
    pub operation: String,
    /// Resource path or identifier.
    pub resource: String,
}

/// The lowercase form of a string, as `str::to_lowercase` computes it.
pub uninterp spec fn lower_of(s: Seq<char>) -> Seq<char>;

/// The level a lowercased name denotes, if any.
pub open spec fn parse_level(t: Seq<char>) -> Option<SecurityLevel> {
    if t == "low"@ {
        Some(SecurityLevel::Low)
    } else if t == "standard"@ {
        Some(SecurityLevel::Standard)
    } else if t == "high"@ {
        Some(SecurityLevel::High)
    } else if t == "maximum"@ {
        Some(SecurityLevel::Maximum)
    } else {
        None
    }
}

/// The textual name of a level.
pub open spec fn level_name(level: SecurityLevel) -> Seq<char> {
    match level {
        SecurityLevel::Low => "low"@,
        SecurityLevel::Standard => "standard"@,
        SecurityLevel::High => "high"@,
        SecurityLevel::Maximum => "maximum"@,
    }
}

/// Relies on str::to_lowercase: the result is a function of the input's
/// characters alone, here named `lower_of`.
#[verifier::external_body]
fn lowercase(s: &str) -> (r: String)
    ensures
        r@ == lower_of(s@),
{
    s.to_lowercase()
}

impl SecurityLevel {
    /// Parse a level from its name, ignoring case; any other string is
    /// rejected with a message naming it.
    pub fn from_str(s: &str) -> (r: Result<SecurityLevel, String>)
        ensures
            match parse_level(lower_of(s@)) {
                Some(level) => r == Ok::<SecurityLevel, String>(level),
                None => r is Err && r->Err_0@ == "Invalid security level: "@ + s@,
            },
    {
        let lowered = lowercase(s);
        if str_eq(lowered.as_str(), "low") {
            Ok(SecurityLevel::Low)
        } else if str_eq(lowered.as_str(), "standard") {
            Ok(SecurityLevel::Standard)
        } else if str_eq(lowered.as_str(), "high") {
            Ok(SecurityLevel::High)
        } else if str_eq(lowered.as_str(), "maximum") {
            Ok(SecurityLevel::Maximum)
        } else {
            let mut message = String::from_str("Invalid security level: ");
            message.append(s);
            Err(message)
        }
    }

    /// The name of this level, always one of the four `from_str` accepts.
    pub fn as_str(&self) -> (r: &'static str)
        ensures
            r@ == level_name(*self),
    {
        match self {
            SecurityLevel::Low => "low",
            SecurityLevel::Standard => "standard",
            SecurityLevel::High => "high",
            SecurityLevel::Maximum => "maximum",
        }
    }
}

} // verus!
