//! Audit and provenance. Every decision emits an audit record explaining why,
//! without personal data: evidence types and states only, never values.

use vstd::prelude::*;
use crate::domain::Decision;
use crate::evidence::CheckResult;
use crate::strmap::StrMap;

verus! {

/// The provenance of one decision.
#[derive(Debug)]
pub struct Audit {
    pub audit_id: String,
    pub question: String,
    pub canonical: Option<String>,
    pub policy: Option<String>,
    pub policy_version: Option<u32>,
    pub resolved_by: Option<String>,
    /// For validated proposals: the proposal as JSON text.
    pub llm_proposal: Option<String>,
    pub decision: Decision,
    /// predicate -> TRUE | FALSE | UNKNOWN.
    pub predicates: StrMap<String>,
    pub evidence_used: Vec<String>,
    pub evidence_missing: Vec<String>,
    pub reasons: Vec<String>,
    pub verification_checks: Vec<CheckResult>,
    pub disclosure_count: Option<usize>,
    pub evaluation_time: String,
}

/// The audit records, by audit id.
pub struct AuditLog {
    inner: StrMap<Audit>,
}

impl View for AuditLog {
    type V = Map<Seq<char>, Audit>;

    closed spec fn view(&self) -> Map<Seq<char>, Audit> {
        self.inner@
    }
}

impl AuditLog {
    /// An empty log.
    pub fn new() -> (res: Self)
        ensures
            res@ == Map::<Seq<char>, Audit>::empty(),
    {
        AuditLog { inner: StrMap::new() }
    }

    /// Record an audit under its id (replacing any earlier record with that id).
    pub fn record(&mut self, audit: Audit)
        ensures
            final(self)@ == old(self)@.insert(audit.audit_id@, audit),
    {
        let id = audit.audit_id.clone();
        self.inner.insert(id, audit);
    }

    /// The audit recorded under `id`.
    pub fn get(&self, id: &str) -> (res: Option<&Audit>)
        ensures
            res matches Some(a) ==> self@.dom().contains(id@) && *a == self@[id@],
            res is None ==> !self@.dom().contains(id@),
    {
        self.inner.get(id)
    }
}

impl Default for AuditLog {
    /// An empty log.
    fn default() -> (res: Self)
        ensures
            res@ == Map::<Seq<char>, Audit>::empty(),
    {
        AuditLog::new()
    }
}

/// Reading an audit back gives what was recorded under its id; records under
/// other ids are untouched.
pub proof fn law_audit_read_after_record(log: Map<Seq<char>, Audit>, audit: Audit, other: Seq<char>)
    ensures
        log.insert(audit.audit_id@, audit)[audit.audit_id@] == audit,
        other != audit.audit_id@ ==> (log.insert(audit.audit_id@, audit).dom().contains(other)
            == log.dom().contains(other)) && (log.dom().contains(other) ==> log.insert(
            audit.audit_id@,
            audit,
        )[other] == log[other]),
{
}

} // verus!
