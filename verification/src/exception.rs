//! Bounded construction exception decisions.

use vstd::prelude::*;
use crate::authority::CONSTRUCTION_EXCEPTION_CAPABILITY;
use crate::date::ProjectDate;
use crate::error::ConstructionProjectError;
use crate::evidence::ExternalRef;
use crate::identity::{ControlId, ProjectId, RoleId};
use crate::text::{is_blank, text_is_blank, texts_equal};

verus! {

/// Scope covered by an exception decision.
#[derive(Debug, PartialEq, Eq)]
pub struct ExceptionScope {
    /// Project identity.
    pub project: ProjectId,
    /// Requirement ids covered by the exception.
    pub requirements: Vec<ControlId>,
}

impl Clone for ExceptionScope {
    fn clone(&self) -> (r: Self)
        ensures
            r.project == self.project,
            r.requirements@ == self.requirements@,
    {
        let requirements = self.requirements.clone();
        assert(requirements@ =~= self.requirements@);
        ExceptionScope { project: self.project.clone(), requirements }
    }
}

/// The scope lists requirement `x`.
pub open spec fn scope_covers(s: Seq<ControlId>, x: Seq<char>) -> bool {
    exists|i: int| 0 <= i < s.len() && (#[trigger] s[i])@ == x
}

impl ExceptionScope {
    /// Builds an exception scope for one project.
    pub fn new(project: ProjectId) -> (s: Self)
        ensures
            s.project == project,
            s.requirements@.len() == 0,
    {
        ExceptionScope { project, requirements: Vec::new() }
    }

    /// Adds one covered requirement.
    pub fn covers(self, requirement: ControlId) -> (s: Self)
        ensures
            s.project == self.project,
            s.requirements@ == self.requirements@.push(requirement),
    {
        let mut s = self;
        s.requirements.push(requirement);
        s
    }

    /// Returns true when this scope covers the requirement id.
    pub fn covers_requirement(&self, requirement: &ControlId) -> (b: bool)
        ensures
            b == scope_covers(self.requirements@, requirement@),
    {
        let mut i: usize = 0;
        while i < self.requirements.len()
            invariant
                i <= self.requirements@.len(),
                forall|j: int| 0 <= j < i ==> (#[trigger] self.requirements@[j])@ != requirement@,
            decreases self.requirements.len() - i,
        {
            if self.requirements[i].same(requirement) {
                return true;
            }
            i = i + 1;
        }
        false
    }
}

/// Accountable, bounded exception decision.
#[derive(Debug, PartialEq, Eq)]
pub struct ExceptionDecision {
    /// Stable exception control id.
    pub id: ControlId,
    /// Project and requirement scope.
    pub scope: ExceptionScope,
    /// Role that made the exception decision.
    pub decided_by: RoleId,
    /// Role authorized to make the exception decision.
    pub authority: RoleId,
    /// Reason for accepting the exception.
    pub reason: String,
    /// Date on which the decision was made.
    pub decided_on: ProjectDate,
    /// Expiry date after which the exception no longer applies.
    pub expires_on: ProjectDate,
    /// Reference-only evidence links supporting the exception.
    pub evidence: Vec<ExternalRef>,
}

/// Some granted capability is the construction-exception capability.
pub open spec fn holds_exception_capability(granted: Seq<String>) -> bool {
    exists|i: int| 0 <= i < granted.len() && (#[trigger] granted[i])@ == CONSTRUCTION_EXCEPTION_CAPABILITY@
}

/// What `validate(granted, as_of)` answers for exception `d`: the first
/// failed check in the order capability, scope, authority, reason,
/// evidence, expiry.
pub open spec fn exception_check(
    d: ExceptionDecision,
    granted: Seq<String>,
    as_of: ProjectDate,
    r: Result<(), ConstructionProjectError>,
) -> bool {
    if !holds_exception_capability(granted) {
        r == Err::<(), ConstructionProjectError>(
            ConstructionProjectError::MissingCapability { capability: CONSTRUCTION_EXCEPTION_CAPABILITY },
        )
    } else if d.scope.requirements@.len() == 0 {
        r == Err::<(), ConstructionProjectError>(ConstructionProjectError::EmptyCollection("exception.scope.requirements"))
    } else if d.decided_by@ != d.authority@ {
        r matches Err(ConstructionProjectError::ExceptionAuthorityMismatch { exception, expected, actual })
            && exception == d.id && expected == d.authority && actual == d.decided_by
    } else if is_blank(d.reason@) {
        r == Err::<(), ConstructionProjectError>(ConstructionProjectError::EmptyField("exception.reason"))
    } else if d.evidence@.len() == 0 {
        r == Err::<(), ConstructionProjectError>(ConstructionProjectError::EmptyCollection("exception.evidence"))
    } else if as_of.julian_day > d.expires_on.julian_day {
        r == Err::<(), ConstructionProjectError>(
            ConstructionProjectError::ExpiredException { exception: d.id, expired_on: d.expires_on, as_of_date: as_of },
        )
    } else {
        r is Ok
    }
}

impl ExceptionDecision {
    /// Builds an exception decision.
    pub fn new(
        id: ControlId,
        scope: ExceptionScope,
        decided_by: RoleId,
        authority: RoleId,
        reason: &str,
        decided_on: ProjectDate,
        expires_on: ProjectDate,
    ) -> (d: Self)
        ensures
            d.id == id,
            d.scope == scope,
            d.decided_by == decided_by,
            d.authority == authority,
            d.reason@ == reason@,
            d.decided_on == decided_on,
            d.expires_on == expires_on,
            d.evidence@.len() == 0,
    {
        ExceptionDecision {
            id,
            scope,
            decided_by,
            authority,
            reason: reason.to_owned(),
            decided_on,
            expires_on,
            evidence: Vec::new(),
        }
    }

    /// Adds a reference-only evidence link.
    pub fn with_evidence(self, evidence: ExternalRef) -> (d: Self)
        ensures
            d == (ExceptionDecision { evidence: d.evidence, ..self }),
            d.evidence@ == self.evidence@.push(evidence),
    {
        let mut d = self;
        d.evidence.push(evidence);
        d
    }

    /// Validates authority, capability, reason, evidence, and expiry.
    pub fn validate(&self, granted_capabilities: &Vec<String>, as_of_date: ProjectDate) -> (r: Result<(), ConstructionProjectError>)
        ensures
            exception_check(*self, granted_capabilities@, as_of_date, r),
    {
        let mut found = false;
        let mut i: usize = 0;
        while i < granted_capabilities.len()
            invariant
                i <= granted_capabilities@.len(),
                found == exists|j: int| 0 <= j < i && (#[trigger] granted_capabilities@[j])@
                    == CONSTRUCTION_EXCEPTION_CAPABILITY@,
            decreases granted_capabilities.len() - i,
        {
            if texts_equal(granted_capabilities[i].as_str(), CONSTRUCTION_EXCEPTION_CAPABILITY) {
                found = true;
            }
            i = i + 1;
        }
        if !found {
            return Err(ConstructionProjectError::MissingCapability { capability: CONSTRUCTION_EXCEPTION_CAPABILITY });
        }
        if self.scope.requirements.len() == 0 {
            return Err(ConstructionProjectError::EmptyCollection("exception.scope.requirements"));
        }
        if !self.decided_by.same(&self.authority) {
            return Err(ConstructionProjectError::ExceptionAuthorityMismatch {
                exception: self.id.clone(),
                expected: self.authority.clone(),
                actual: self.decided_by.clone(),
            });
        }
        if text_is_blank(self.reason.as_str()) {
            return Err(ConstructionProjectError::EmptyField("exception.reason"));
        }
        if self.evidence.len() == 0 {
            return Err(ConstructionProjectError::EmptyCollection("exception.evidence"));
        }
        if self.expires_on.before(&as_of_date) {
            return Err(ConstructionProjectError::ExpiredException {
                exception: self.id.clone(),
                expired_on: self.expires_on,
                as_of_date,
            });
        }
        Ok(())
    }
}


/// A valid exception is held under the exception capability, decided by
/// its own authority, names a scope, and has not expired.
pub proof fn lemma_valid_exception_is_current(d: ExceptionDecision, granted: Seq<String>, as_of: ProjectDate)
    requires
        exception_check(d, granted, as_of, Ok(())),
    ensures
        holds_exception_capability(granted),
        d.decided_by@ == d.authority@,
        d.scope.requirements@.len() > 0,
        as_of.julian_day <= d.expires_on.julian_day,
{
}

} // verus!
