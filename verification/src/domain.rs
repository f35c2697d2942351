//! Core domain types. States are enums, never booleans.
//!
//! The engine runs the reverse of a knowledge-to-answer inference:
//! question -> required predicates -> required evidence -> verification -> decision.

use vstd::prelude::*;

verus! {

/// Whether a canonical id names a single predicate or a multi-predicate policy.
#[derive(Debug, Clone, Copy, PartialEq, Eq, Structural)]
pub enum Kind {
    Predicate,
    Policy,
}

/// eIDAS-style assurance levels.
#[derive(Debug, Clone, Copy, PartialEq, Eq, Structural)]
pub enum AssuranceLevel {
    High,
    Substantial,
    Low,
}

/// Explicit evidence state. Never collapsed to a boolean.
#[derive(Debug, Clone, Copy, PartialEq, Eq, Structural)]
pub enum EvidenceState {
    Available,
    Missing,
    Expired,
    Invalid,
    Revoked,
    Unknown,
}

/// Truth value of a predicate after evaluation. UNKNOWN is first-class.
#[derive(Debug, Clone, Copy, PartialEq, Eq, Structural)]
pub enum PredicateState {
    True,
    False,
    Unknown,
}

/// Final decision. `ReplayDetected` surfaces a single-use nonce violation.
#[derive(Debug, Clone, Copy, PartialEq, Eq, Structural)]
pub enum Decision {
    Allow,
    Deny,
    Unknown,
    ReplayDetected,
}

/// A single piece of evidence: its type and its current state. No attribute values.
#[derive(Debug)]
pub struct Evidence {
    pub evidence_type: String,
    pub state: EvidenceState,
}

impl Clone for Evidence {
    fn clone(&self) -> (res: Self)
        ensures
            res == *self,
    {
        Evidence { evidence_type: self.evidence_type.clone(), state: self.state }
    }
}

/// The upper-case wire name of an evidence state.
pub open spec fn state_name(s: EvidenceState) -> Seq<char> {
    match s {
        EvidenceState::Available => "AVAILABLE"@,
        EvidenceState::Missing => "MISSING"@,
        EvidenceState::Expired => "EXPIRED"@,
        EvidenceState::Invalid => "INVALID"@,
        EvidenceState::Revoked => "REVOKED"@,
        EvidenceState::Unknown => "UNKNOWN"@,
    }
}

/// The upper-case wire name of an evidence state.
pub fn state_str(s: EvidenceState) -> (res: &'static str)
    ensures
        res@ == state_name(s),
{
    proof {
        reveal_strlit("AVAILABLE");
        reveal_strlit("MISSING");
        reveal_strlit("EXPIRED");
        reveal_strlit("INVALID");
        reveal_strlit("REVOKED");
        reveal_strlit("UNKNOWN");
    }
    match s {
        EvidenceState::Available => "AVAILABLE",
        EvidenceState::Missing => "MISSING",
        EvidenceState::Expired => "EXPIRED",
        EvidenceState::Invalid => "INVALID",
        EvidenceState::Revoked => "REVOKED",
        EvidenceState::Unknown => "UNKNOWN",
    }
}

} // verus!
