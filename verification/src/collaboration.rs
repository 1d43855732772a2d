//! Collaboration charter records.

use vstd::prelude::*;
use crate::bid::{non_empty_texts_check, texts_check, validate_non_empty, validate_texts};
use crate::error::ConstructionProjectError;
use crate::evidence::ExternalRef;
use crate::identity::{ControlId, ProjectId, RoleId};
use crate::obligation::ProjectObligation;
use crate::text::{is_blank, text_is_blank};

verus! {

/// Collaboration charter between customer and supplier organizations.
#[derive(Debug, PartialEq, Eq)]
pub struct CollaborationCharter {
    /// Stable construction project identity.
    pub project: ProjectId,
    /// Charter control id.
    pub control: ControlId,
    /// Shared collaboration objectives.
    pub objectives: Vec<String>,
    /// Working principles.
    pub working_principles: Vec<String>,
    /// Organization of the collaboration.
    pub organization: Vec<String>,
    /// Decision rights.
    pub decision_rights: Vec<String>,
    /// Meeting cadence.
    pub meeting_cadence: String,
    /// Joint investigations.
    pub investigations: Vec<String>,
    /// Target, design and buildability work.
    pub target_design_buildability_work: Vec<String>,
    /// Open-book rules.
    pub open_book_rules: Vec<String>,
    /// Escalation roles.
    pub escalation: Vec<RoleId>,
    /// Controls that must be current as main-contract evidence.
    pub main_contract_evidence: Vec<ControlId>,
    /// Obligations the collaboration must meet.
    pub obligations: Vec<ProjectObligation>,
    /// Reference-only evidence links.
    pub evidence: Vec<ExternalRef>,
}

/// What `validate` answers for a collaboration charter: the first failed
/// check in declaration order.
pub open spec fn collaboration_check(c: CollaborationCharter, r: Result<(), ConstructionProjectError>) -> bool {
    if !non_empty_texts_check(c.objectives@, "collaboration.objectives", Ok(())) {
        non_empty_texts_check(c.objectives@, "collaboration.objectives", r)
    } else if !non_empty_texts_check(c.working_principles@, "collaboration.working_principles", Ok(())) {
        non_empty_texts_check(c.working_principles@, "collaboration.working_principles", r)
    } else if !non_empty_texts_check(c.organization@, "collaboration.organization", Ok(())) {
        non_empty_texts_check(c.organization@, "collaboration.organization", r)
    } else if !non_empty_texts_check(c.decision_rights@, "collaboration.decision_rights", Ok(())) {
        non_empty_texts_check(c.decision_rights@, "collaboration.decision_rights", r)
    } else if is_blank(c.meeting_cadence@) {
        r == Err::<(), ConstructionProjectError>(ConstructionProjectError::EmptyField("collaboration.meeting_cadence"))
    } else if !non_empty_texts_check(c.investigations@, "collaboration.investigations", Ok(())) {
        non_empty_texts_check(c.investigations@, "collaboration.investigations", r)
    } else if !non_empty_texts_check(
        c.target_design_buildability_work@,
        "collaboration.target_design_buildability_work",
        Ok(()),
    ) {
        non_empty_texts_check(c.target_design_buildability_work@, "collaboration.target_design_buildability_work", r)
    } else if !texts_check(c.open_book_rules@, "collaboration.open_book_rules", Ok(())) {
        texts_check(c.open_book_rules@, "collaboration.open_book_rules", r)
    } else if c.escalation@.len() == 0 {
        r == Err::<(), ConstructionProjectError>(ConstructionProjectError::EmptyCollection("collaboration.escalation"))
    } else if c.main_contract_evidence@.len() == 0 {
        r == Err::<(), ConstructionProjectError>(ConstructionProjectError::EmptyCollection("collaboration.main_contract_evidence"))
    } else if c.obligations@.len() == 0 {
        r == Err::<(), ConstructionProjectError>(ConstructionProjectError::EmptyCollection("collaboration.obligations"))
    } else if c.evidence@.len() == 0 {
        r == Err::<(), ConstructionProjectError>(ConstructionProjectError::EmptyCollection("collaboration.evidence"))
    } else {
        r is Ok
    }
}

/// `after` is `before` with one more text, `value`, at the end.
pub open spec fn text_pushed(before: Seq<String>, after: Seq<String>, value: Seq<char>) -> bool {
    &&& after.len() == before.len() + 1
    &&& after.drop_last() == before
    &&& after.last()@ == value
}

fn push_text(v: &mut Vec<String>, value: &str)
    ensures
        text_pushed(old(v)@, final(v)@, value@),
{
    v.push(value.to_owned());
    proof {
        assert(final(v)@.drop_last() =~= old(v)@);
    }
}

impl CollaborationCharter {
    /// Starts a collaboration charter.
    pub fn new(project: ProjectId, control: ControlId, meeting_cadence: &str) -> (c: Self)
        ensures
            c.project == project,
            c.control == control,
            c.meeting_cadence@ == meeting_cadence@,
            c.objectives@.len() == 0,
            c.working_principles@.len() == 0,
            c.organization@.len() == 0,
            c.decision_rights@.len() == 0,
            c.investigations@.len() == 0,
            c.target_design_buildability_work@.len() == 0,
            c.open_book_rules@.len() == 0,
            c.escalation@.len() == 0,
            c.main_contract_evidence@.len() == 0,
            c.obligations@.len() == 0,
            c.evidence@.len() == 0,
    {
        CollaborationCharter {
            project,
            control,
            objectives: Vec::new(),
            working_principles: Vec::new(),
            organization: Vec::new(),
            decision_rights: Vec::new(),
            meeting_cadence: meeting_cadence.to_owned(),
            investigations: Vec::new(),
            target_design_buildability_work: Vec::new(),
            open_book_rules: Vec::new(),
            escalation: Vec::new(),
            main_contract_evidence: Vec::new(),
            obligations: Vec::new(),
            evidence: Vec::new(),
        }
    }

    /// Adds one collaboration objective.
    pub fn with_objective(self, value: &str) -> (c: Self)
        ensures
            c == (CollaborationCharter { objectives: c.objectives, ..self }),
            text_pushed(self.objectives@, c.objectives@, value@),
    {
        let mut c = self;
        push_text(&mut c.objectives, value);
        c
    }

    /// Adds one working principle.
    pub fn with_working_principle(self, value: &str) -> (c: Self)
        ensures
            c == (CollaborationCharter { working_principles: c.working_principles, ..self }),
            text_pushed(self.working_principles@, c.working_principles@, value@),
    {
        let mut c = self;
        push_text(&mut c.working_principles, value);
        c
    }

    /// Adds one organization note.
    pub fn with_organization(self, value: &str) -> (c: Self)
        ensures
            c == (CollaborationCharter { organization: c.organization, ..self }),
            text_pushed(self.organization@, c.organization@, value@),
    {
        let mut c = self;
        push_text(&mut c.organization, value);
        c
    }

    /// Adds one decision right.
    pub fn with_decision_right(self, value: &str) -> (c: Self)
        ensures
            c == (CollaborationCharter { decision_rights: c.decision_rights, ..self }),
            text_pushed(self.decision_rights@, c.decision_rights@, value@),
    {
        let mut c = self;
        push_text(&mut c.decision_rights, value);
        c
    }

    /// Adds one joint investigation.
    pub fn with_investigation(self, value: &str) -> (c: Self)
        ensures
            c == (CollaborationCharter { investigations: c.investigations, ..self }),
            text_pushed(self.investigations@, c.investigations@, value@),
    {
        let mut c = self;
        push_text(&mut c.investigations, value);
        c
    }

    /// Adds one target, design or buildability work item.
    pub fn with_target_design_buildability_work(self, value: &str) -> (c: Self)
        ensures
            c == (CollaborationCharter { target_design_buildability_work: c.target_design_buildability_work, ..self }),
            text_pushed(self.target_design_buildability_work@, c.target_design_buildability_work@, value@),
    {
        let mut c = self;
        push_text(&mut c.target_design_buildability_work, value);
        c
    }

    /// Adds one open-book rule.
    pub fn with_open_book_rule(self, value: &str) -> (c: Self)
        ensures
            c == (CollaborationCharter { open_book_rules: c.open_book_rules, ..self }),
            text_pushed(self.open_book_rules@, c.open_book_rules@, value@),
    {
        let mut c = self;
        push_text(&mut c.open_book_rules, value);
        c
    }

    /// Adds one escalation role.
    pub fn with_escalation_role(self, role: RoleId) -> (c: Self)
        ensures
            c == (CollaborationCharter { escalation: c.escalation, ..self }),
            c.escalation@ == self.escalation@.push(role),
    {
        let mut c = self;
        c.escalation.push(role);
        c
    }

    /// Adds one control required as main-contract evidence.
    pub fn with_main_contract_evidence(self, control: ControlId) -> (c: Self)
        ensures
            c == (CollaborationCharter { main_contract_evidence: c.main_contract_evidence, ..self }),
            c.main_contract_evidence@ == self.main_contract_evidence@.push(control),
    {
        let mut c = self;
        c.main_contract_evidence.push(control);
        c
    }

    /// Adds one obligation.
    pub fn with_obligation(self, obligation: ProjectObligation) -> (c: Self)
        ensures
            c == (CollaborationCharter { obligations: c.obligations, ..self }),
            c.obligations@ == self.obligations@.push(obligation),
    {
        let mut c = self;
        c.obligations.push(obligation);
        c
    }

    /// Adds one reference-only evidence link.
    pub fn with_evidence(self, evidence: ExternalRef) -> (c: Self)
        ensures
            c == (CollaborationCharter { evidence: c.evidence, ..self }),
            c.evidence@ == self.evidence@.push(evidence),
    {
        let mut c = self;
        c.evidence.push(evidence);
        c
    }

    /// Validates the charter: required text lists, meeting cadence,
    /// open-book rules, escalation, main-contract evidence, obligations and
    /// evidence.
    pub fn validate(&self) -> (r: Result<(), ConstructionProjectError>)
        ensures
            collaboration_check(*self, r),
    {
        validate_non_empty(&self.objectives, "collaboration.objectives")?;
        validate_non_empty(&self.working_principles, "collaboration.working_principles")?;
        validate_non_empty(&self.organization, "collaboration.organization")?;
        validate_non_empty(&self.decision_rights, "collaboration.decision_rights")?;
        if text_is_blank(self.meeting_cadence.as_str()) {
            return Err(ConstructionProjectError::EmptyField("collaboration.meeting_cadence"));
        }
        validate_non_empty(&self.investigations, "collaboration.investigations")?;
        validate_non_empty(&self.target_design_buildability_work, "collaboration.target_design_buildability_work")?;
        validate_texts(&self.open_book_rules, "collaboration.open_book_rules")?;
        if self.escalation.len() == 0 {
            return Err(ConstructionProjectError::EmptyCollection("collaboration.escalation"));
        }
        if self.main_contract_evidence.len() == 0 {
            return Err(ConstructionProjectError::EmptyCollection("collaboration.main_contract_evidence"));
        }
        if self.obligations.len() == 0 {
            return Err(ConstructionProjectError::EmptyCollection("collaboration.obligations"));
        }
        if self.evidence.len() == 0 {
            return Err(ConstructionProjectError::EmptyCollection("collaboration.evidence"));
        }
        Ok(())
    }
}

} // verus!
