//! Design-control records (revisions, reviews, RFIs, releases, permits,
//! inspections and authority obligations) and the readiness of a package,
//! task or control that is derived from them through the control graph.

use vstd::prelude::*;
use crate::control_graph::{
    add_edge_outcome, edge_is, explains, has_edge, has_node, is_cycle_report, is_least_kind, is_walk, lemma_acyclic_no_self_reach, linked,
    node_kind, reaches, readiness_acyclic, ControlEdge, ControlEdgeKind,
    ControlExplanationPath, ControlExplanationStep, ControlGraph, ControlNode, ControlNodeKind, EdgeScope,
};
use crate::date::ProjectDate;
use crate::error::ConstructionProjectError;
use crate::evidence::{window_contains, EvidenceState, EvidenceValidity, ExternalRef};
use crate::identity::{ControlId, ProjectId, RoleId};
use crate::order::{
    first_where, lemma_first_where_all_false, lemma_first_where_stable, lemma_lex_irreflexive, lemma_lex_total,
    lemma_lex_asymmetric, lemma_lex_transitive, lex_lt, text_precedes, id_set,
};
use crate::text::{is_blank, text_is_blank};

verus! {

/// Decision state of a design review.
#[derive(Clone, Copy, Debug, PartialEq, Eq, Structural, Hash)]
pub enum DesignReviewState {
    /// The review has not been decided.
    Pending,
    /// The reviewed revision was accepted.
    Accepted,
    /// The reviewed revision was rejected.
    Rejected,
}

/// State of a request for information.
#[derive(Clone, Copy, Debug, PartialEq, Eq, Structural, Hash)]
pub enum RfiState {
    /// The RFI awaits an answer.
    Open,
    /// The RFI was answered but the answer is not accepted.
    Answered,
    /// The answer was accepted.
    Accepted,
}

/// Purpose for which a design is released.
#[derive(Clone, Copy, Debug, PartialEq, Eq, Structural, Hash)]
pub enum DesignReleasePurpose {
    /// Released for coordination between disciplines.
    Coordination,
    /// Released for procurement.
    Procurement,
    /// Released for production.
    Production,
}

/// State of an authority permit.
#[derive(Clone, Copy, Debug, PartialEq, Eq, Structural, Hash)]
pub enum PermitState {
    /// The permit has been applied for.
    Requested,
    /// The authority granted the permit.
    Granted,
    /// The authority put the permit on hold.
    Hold,
    /// The authority refused the permit.
    Refused,
}

/// State of an authority inspection.
#[derive(Clone, Copy, Debug, PartialEq, Eq, Structural, Hash)]
pub enum InspectionState {
    /// The inspection is scheduled.
    Scheduled,
    /// The inspection passed.
    Passed,
    /// The inspection failed.
    Failed,
    /// The authority put the inspection on hold.
    Hold,
}

/// State of an obligation imposed by an authority.
#[derive(Clone, Copy, Debug, PartialEq, Eq, Structural, Hash)]
pub enum AuthorityObligationState {
    /// The obligation is open.
    Open,
    /// The obligation is satisfied.
    Satisfied,
    /// The authority put the obligation on hold.
    Hold,
}

/// Design deliverable revision with reference-only external artifacts.
#[derive(Debug, PartialEq, Eq)]
pub struct DesignRevision {
    /// Stable construction project identity.
    pub project: ProjectId,
    /// Revision control id.
    pub control: ControlId,
    /// Human-facing revision name.
    pub revision: String,
    /// Role responsible for the deliverable.
    pub responsible_role: RoleId,
    /// Date the revision is needed.
    pub need_date: ProjectDate,
    /// Package, task, or control ids affected by the revision.
    pub affected_control_ids: Vec<ControlId>,
    /// Current evidence state.
    pub evidence_state: EvidenceState,
    /// Prior revision superseded by this revision, when any.
    pub supersedes: Option<ControlId>,
    /// Reference-only design artifacts.
    pub external_refs: Vec<ExternalRef>,
}

impl DesignRevision {
    /// Builds a reported design revision with no affected controls or artifacts.
    pub fn new(project: ProjectId, control: ControlId, revision: &str, responsible_role: RoleId, need_date: ProjectDate) -> (r: Self)
        ensures
            r.project == project,
            r.control == control,
            r.revision@ == revision@,
            r.responsible_role == responsible_role,
            r.need_date == need_date,
            r.affected_control_ids@.len() == 0,
            r.evidence_state == EvidenceState::Reported,
            r.supersedes is None,
            r.external_refs@.len() == 0,
    {
        DesignRevision {
            project,
            control,
            revision: revision.to_owned(),
            responsible_role,
            need_date,
            affected_control_ids: Vec::new(),
            evidence_state: EvidenceState::Reported,
            supersedes: None,
            external_refs: Vec::new(),
        }
    }

    /// Sets the evidence state.
    pub fn with_evidence_state(self, evidence_state: EvidenceState) -> (r: Self)
        ensures
            r == (DesignRevision { evidence_state, ..self }),
    {
        let mut r = self;
        r.evidence_state = evidence_state;
        r
    }

    /// Marks `revision` as superseded by this revision.
    pub fn supersedes(self, revision: ControlId) -> (r: Self)
        ensures
            r == (DesignRevision { supersedes: Some(revision), ..self }),
    {
        let mut r = self;
        r.supersedes = Some(revision);
        r
    }

    /// Adds an affected package, task, or control id.
    pub fn affects(self, control: ControlId) -> (r: Self)
        ensures
            r == (DesignRevision { affected_control_ids: r.affected_control_ids, ..self }),
            r.affected_control_ids@ == self.affected_control_ids@.push(control),
    {
        let mut r = self;
        r.affected_control_ids.push(control);
        r
    }

    /// Adds a reference-only design artifact.
    pub fn with_external_ref(self, external_ref: ExternalRef) -> (r: Self)
        ensures
            r == (DesignRevision { external_refs: r.external_refs, ..self }),
            r.external_refs@ == self.external_refs@.push(external_ref),
    {
        let mut r = self;
        r.external_refs.push(external_ref);
        r
    }
}

/// Design review of one revision.
#[derive(Debug, PartialEq, Eq)]
pub struct DesignReview {
    /// Stable construction project identity.
    pub project: ProjectId,
    /// Review control id.
    pub control: ControlId,
    /// Reviewed design revision.
    pub design_revision: ControlId,
    /// Reviewing role.
    pub reviewed_by: RoleId,
    /// Review date.
    pub reviewed_on: ProjectDate,
    /// Review decision state.
    pub state: DesignReviewState,
    /// Current evidence state.
    pub evidence_state: EvidenceState,
    /// Package, task, or control ids affected by the record.
    pub affected_control_ids: Vec<ControlId>,
    /// Reference-only artifacts.
    pub external_refs: Vec<ExternalRef>,
}

impl DesignReview {
    /// Builds the record with no affected controls or artifacts.
    pub fn new(project: ProjectId, control: ControlId, design_revision: ControlId, reviewed_by: RoleId, reviewed_on: ProjectDate) -> (r: Self)
        ensures
            r.project == project,
            r.control == control,
            r.design_revision == design_revision,
            r.reviewed_by == reviewed_by,
            r.reviewed_on == reviewed_on,
            r.state == DesignReviewState::Pending,
            r.evidence_state == EvidenceState::Reported,
            r.affected_control_ids@.len() == 0,
            r.external_refs@.len() == 0,
    {
        DesignReview { project, control, design_revision, reviewed_by, reviewed_on, state: DesignReviewState::Pending, evidence_state: EvidenceState::Reported, affected_control_ids: Vec::new(), external_refs: Vec::new() }
    }

    /// Sets the state.
    pub fn with_state(self, state: DesignReviewState) -> (r: Self)
        ensures
            r == (DesignReview { state, ..self }),
    {
        let mut r = self;
        r.state = state;
        r
    }

    /// Sets the evidence state.
    pub fn with_evidence_state(self, evidence_state: EvidenceState) -> (r: Self)
        ensures
            r == (DesignReview { evidence_state, ..self }),
    {
        let mut r = self;
        r.evidence_state = evidence_state;
        r
    }

    /// Adds an affected package, task, or control id.
    pub fn affects(self, control: ControlId) -> (r: Self)
        ensures
            r == (DesignReview { affected_control_ids: r.affected_control_ids, ..self }),
            r.affected_control_ids@ == self.affected_control_ids@.push(control),
    {
        let mut r = self;
        r.affected_control_ids.push(control);
        r
    }

    /// Adds a reference-only artifact.
    pub fn with_external_ref(self, external_ref: ExternalRef) -> (r: Self)
        ensures
            r == (DesignReview { external_refs: r.external_refs, ..self }),
            r.external_refs@ == self.external_refs@.push(external_ref),
    {
        let mut r = self;
        r.external_refs.push(external_ref);
        r
    }

}

/// Request for information.
#[derive(Debug, PartialEq, Eq)]
pub struct RfiRecord {
    /// Stable construction project identity.
    pub project: ProjectId,
    /// RFI control id.
    pub control: ControlId,
    /// Role that raised the RFI.
    pub raised_by: RoleId,
    /// Date the RFI was raised.
    pub raised_on: ProjectDate,
    /// RFI state.
    pub state: RfiState,
    /// Current evidence state.
    pub evidence_state: EvidenceState,
    /// Package, task, or control ids affected by the record.
    pub affected_control_ids: Vec<ControlId>,
    /// Reference-only artifacts.
    pub external_refs: Vec<ExternalRef>,
}

impl RfiRecord {
    /// Builds the record with no affected controls or artifacts.
    pub fn new(project: ProjectId, control: ControlId, raised_by: RoleId, raised_on: ProjectDate) -> (r: Self)
        ensures
            r.project == project,
            r.control == control,
            r.raised_by == raised_by,
            r.raised_on == raised_on,
            r.state == RfiState::Open,
            r.evidence_state == EvidenceState::Reported,
            r.affected_control_ids@.len() == 0,
            r.external_refs@.len() == 0,
    {
        RfiRecord { project, control, raised_by, raised_on, state: RfiState::Open, evidence_state: EvidenceState::Reported, affected_control_ids: Vec::new(), external_refs: Vec::new() }
    }

    /// Sets the state.
    pub fn with_state(self, state: RfiState) -> (r: Self)
        ensures
            r == (RfiRecord { state, ..self }),
    {
        let mut r = self;
        r.state = state;
        r
    }

    /// Sets the evidence state.
    pub fn with_evidence_state(self, evidence_state: EvidenceState) -> (r: Self)
        ensures
            r == (RfiRecord { evidence_state, ..self }),
    {
        let mut r = self;
        r.evidence_state = evidence_state;
        r
    }

    /// Adds an affected package, task, or control id.
    pub fn affects(self, control: ControlId) -> (r: Self)
        ensures
            r == (RfiRecord { affected_control_ids: r.affected_control_ids, ..self }),
            r.affected_control_ids@ == self.affected_control_ids@.push(control),
    {
        let mut r = self;
        r.affected_control_ids.push(control);
        r
    }

    /// Adds a reference-only artifact.
    pub fn with_external_ref(self, external_ref: ExternalRef) -> (r: Self)
        ensures
            r == (RfiRecord { external_refs: r.external_refs, ..self }),
            r.external_refs@ == self.external_refs@.push(external_ref),
    {
        let mut r = self;
        r.external_refs.push(external_ref);
        r
    }

}

/// Purpose-specific release of one design revision.
#[derive(Debug, PartialEq, Eq)]
pub struct DesignRelease {
    /// Stable construction project identity.
    pub project: ProjectId,
    /// Release control id.
    pub control: ControlId,
    /// Released design revision.
    pub design_revision: ControlId,
    /// Human-facing revision name of the release.
    pub revision: String,
    /// Purpose the release serves.
    pub purpose: DesignReleasePurpose,
    /// Role that prepared the release.
    pub prepared_by: RoleId,
    /// Role that released it.
    pub released_by: RoleId,
    /// Role entitled to release it.
    pub release_authority: RoleId,
    /// Release date.
    pub released_on: ProjectDate,
    /// Current evidence state.
    pub evidence_state: EvidenceState,
    /// Superseding revision the release was revalidated against, when any.
    pub revalidated_against: Option<ControlId>,
    /// Package, task, or control ids affected by the release.
    pub affected_control_ids: Vec<ControlId>,
    /// Reference-only artifacts.
    pub external_refs: Vec<ExternalRef>,
}

impl DesignRelease {
    /// Builds a reported release with no affected controls or artifacts.
    pub fn new(
        project: ProjectId,
        control: ControlId,
        design_revision: ControlId,
        revision: &str,
        purpose: DesignReleasePurpose,
        prepared_by: RoleId,
        released_by: RoleId,
        release_authority: RoleId,
        released_on: ProjectDate,
    ) -> (r: Self)
        ensures
            r.project == project,
            r.control == control,
            r.design_revision == design_revision,
            r.revision@ == revision@,
            r.purpose == purpose,
            r.prepared_by == prepared_by,
            r.released_by == released_by,
            r.release_authority == release_authority,
            r.released_on == released_on,
            r.evidence_state == EvidenceState::Reported,
            r.revalidated_against is None,
            r.affected_control_ids@.len() == 0,
            r.external_refs@.len() == 0,
    {
        DesignRelease {
            project,
            control,
            design_revision,
            revision: revision.to_owned(),
            purpose,
            prepared_by,
            released_by,
            release_authority,
            released_on,
            evidence_state: EvidenceState::Reported,
            revalidated_against: None,
            affected_control_ids: Vec::new(),
            external_refs: Vec::new(),
        }
    }

    /// Sets the evidence state.
    pub fn with_evidence_state(self, evidence_state: EvidenceState) -> (r: Self)
        ensures
            r == (DesignRelease { evidence_state, ..self }),
    {
        let mut r = self;
        r.evidence_state = evidence_state;
        r
    }

    /// Records that the release was revalidated against a superseding revision.
    pub fn revalidated_against(self, revision: ControlId) -> (r: Self)
        ensures
            r == (DesignRelease { revalidated_against: Some(revision), ..self }),
    {
        let mut r = self;
        r.revalidated_against = Some(revision);
        r
    }

    /// Adds an affected package, task, or control id.
    pub fn affects(self, control: ControlId) -> (r: Self)
        ensures
            r == (DesignRelease { affected_control_ids: r.affected_control_ids, ..self }),
            r.affected_control_ids@ == self.affected_control_ids@.push(control),
    {
        let mut r = self;
        r.affected_control_ids.push(control);
        r
    }

    /// Adds a reference-only artifact.
    pub fn with_external_ref(self, external_ref: ExternalRef) -> (r: Self)
        ensures
            r == (DesignRelease { external_refs: r.external_refs, ..self }),
            r.external_refs@ == self.external_refs@.push(external_ref),
    {
        let mut r = self;
        r.external_refs.push(external_ref);
        r
    }
}

/// Authority permit.
#[derive(Debug, PartialEq, Eq)]
pub struct PermitRecord {
    /// Stable construction project identity.
    pub project: ProjectId,
    /// Permit control id.
    pub control: ControlId,
    /// Role dealing with the authority.
    pub authority_role: RoleId,
    /// Application date.
    pub applied_on: ProjectDate,
    /// Permit state.
    pub state: PermitState,
    /// Current evidence state.
    pub evidence_state: EvidenceState,
    /// Validity window of the permit evidence.
    pub validity: EvidenceValidity,
    /// Package, task, or control ids affected by the record.
    pub affected_control_ids: Vec<ControlId>,
    /// Reference-only artifacts.
    pub external_refs: Vec<ExternalRef>,
}

impl PermitRecord {
    /// Builds the record with no affected controls or artifacts.
    pub fn new(project: ProjectId, control: ControlId, authority_role: RoleId, applied_on: ProjectDate) -> (r: Self)
        ensures
            r.project == project,
            r.control == control,
            r.authority_role == authority_role,
            r.applied_on == applied_on,
            r.state == PermitState::Requested,
            r.evidence_state == EvidenceState::Reported,
            r.validity == (EvidenceValidity { valid_from: None, valid_until: None }),
            r.affected_control_ids@.len() == 0,
            r.external_refs@.len() == 0,
    {
        PermitRecord { project, control, authority_role, applied_on, state: PermitState::Requested, evidence_state: EvidenceState::Reported, validity: EvidenceValidity { valid_from: None, valid_until: None }, affected_control_ids: Vec::new(), external_refs: Vec::new() }
    }

    /// Sets the state.
    pub fn with_state(self, state: PermitState) -> (r: Self)
        ensures
            r == (PermitRecord { state, ..self }),
    {
        let mut r = self;
        r.state = state;
        r
    }

    /// Sets the evidence state.
    pub fn with_evidence_state(self, evidence_state: EvidenceState) -> (r: Self)
        ensures
            r == (PermitRecord { evidence_state, ..self }),
    {
        let mut r = self;
        r.evidence_state = evidence_state;
        r
    }

    /// Adds an affected package, task, or control id.
    pub fn affects(self, control: ControlId) -> (r: Self)
        ensures
            r == (PermitRecord { affected_control_ids: r.affected_control_ids, ..self }),
            r.affected_control_ids@ == self.affected_control_ids@.push(control),
    {
        let mut r = self;
        r.affected_control_ids.push(control);
        r
    }

    /// Adds a reference-only artifact.
    pub fn with_external_ref(self, external_ref: ExternalRef) -> (r: Self)
        ensures
            r == (PermitRecord { external_refs: r.external_refs, ..self }),
            r.external_refs@ == self.external_refs@.push(external_ref),
    {
        let mut r = self;
        r.external_refs.push(external_ref);
        r
    }

    /// Sets the validity window of the permit evidence.
    pub fn with_validity(self, validity: EvidenceValidity) -> (r: Self)
        ensures
            r == (PermitRecord { validity, ..self }),
    {
        let mut r = self;
        r.validity = validity;
        r
    }

}

/// Authority inspection.
#[derive(Debug, PartialEq, Eq)]
pub struct InspectionRecord {
    /// Stable construction project identity.
    pub project: ProjectId,
    /// Inspection control id.
    pub control: ControlId,
    /// Role dealing with the inspection.
    pub inspector: RoleId,
    /// Inspection date.
    pub scheduled_on: ProjectDate,
    /// Inspection state.
    pub state: InspectionState,
    /// Current evidence state.
    pub evidence_state: EvidenceState,
    /// Package, task, or control ids affected by the record.
    pub affected_control_ids: Vec<ControlId>,
    /// Reference-only artifacts.
    pub external_refs: Vec<ExternalRef>,
}

impl InspectionRecord {
    /// Builds the record with no affected controls or artifacts.
    pub fn new(project: ProjectId, control: ControlId, inspector: RoleId, scheduled_on: ProjectDate) -> (r: Self)
        ensures
            r.project == project,
            r.control == control,
            r.inspector == inspector,
            r.scheduled_on == scheduled_on,
            r.state == InspectionState::Scheduled,
            r.evidence_state == EvidenceState::Reported,
            r.affected_control_ids@.len() == 0,
            r.external_refs@.len() == 0,
    {
        InspectionRecord { project, control, inspector, scheduled_on, state: InspectionState::Scheduled, evidence_state: EvidenceState::Reported, affected_control_ids: Vec::new(), external_refs: Vec::new() }
    }

    /// Sets the state.
    pub fn with_state(self, state: InspectionState) -> (r: Self)
        ensures
            r == (InspectionRecord { state, ..self }),
    {
        let mut r = self;
        r.state = state;
        r
    }

    /// Sets the evidence state.
    pub fn with_evidence_state(self, evidence_state: EvidenceState) -> (r: Self)
        ensures
            r == (InspectionRecord { evidence_state, ..self }),
    {
        let mut r = self;
        r.evidence_state = evidence_state;
        r
    }

    /// Adds an affected package, task, or control id.
    pub fn affects(self, control: ControlId) -> (r: Self)
        ensures
            r == (InspectionRecord { affected_control_ids: r.affected_control_ids, ..self }),
            r.affected_control_ids@ == self.affected_control_ids@.push(control),
    {
        let mut r = self;
        r.affected_control_ids.push(control);
        r
    }

    /// Adds a reference-only artifact.
    pub fn with_external_ref(self, external_ref: ExternalRef) -> (r: Self)
        ensures
            r == (InspectionRecord { external_refs: r.external_refs, ..self }),
            r.external_refs@ == self.external_refs@.push(external_ref),
    {
        let mut r = self;
        r.external_refs.push(external_ref);
        r
    }

}

/// Obligation imposed by an authority.
#[derive(Debug, PartialEq, Eq)]
pub struct AuthorityObligation {
    /// Stable construction project identity.
    pub project: ProjectId,
    /// Obligation control id.
    pub control: ControlId,
    /// Role dealing with the authority.
    pub authority_role: RoleId,
    /// Date the obligation was raised.
    pub raised_on: ProjectDate,
    /// Obligation state.
    pub state: AuthorityObligationState,
    /// Current evidence state.
    pub evidence_state: EvidenceState,
    /// True when policy may not waive the obligation for production.
    pub non_waivable: bool,
    /// Package, task, or control ids affected by the record.
    pub affected_control_ids: Vec<ControlId>,
    /// Reference-only artifacts.
    pub external_refs: Vec<ExternalRef>,
}

impl AuthorityObligation {
    /// Builds the record with no affected controls or artifacts.
    pub fn new(project: ProjectId, control: ControlId, authority_role: RoleId, raised_on: ProjectDate) -> (r: Self)
        ensures
            r.project == project,
            r.control == control,
            r.authority_role == authority_role,
            r.raised_on == raised_on,
            r.state == AuthorityObligationState::Open,
            r.evidence_state == EvidenceState::Reported,
            r.non_waivable == false,
            r.affected_control_ids@.len() == 0,
            r.external_refs@.len() == 0,
    {
        AuthorityObligation { project, control, authority_role, raised_on, state: AuthorityObligationState::Open, evidence_state: EvidenceState::Reported, non_waivable: false, affected_control_ids: Vec::new(), external_refs: Vec::new() }
    }

    /// Sets the state.
    pub fn with_state(self, state: AuthorityObligationState) -> (r: Self)
        ensures
            r == (AuthorityObligation { state, ..self }),
    {
        let mut r = self;
        r.state = state;
        r
    }

    /// Sets the evidence state.
    pub fn with_evidence_state(self, evidence_state: EvidenceState) -> (r: Self)
        ensures
            r == (AuthorityObligation { evidence_state, ..self }),
    {
        let mut r = self;
        r.evidence_state = evidence_state;
        r
    }

    /// Adds an affected package, task, or control id.
    pub fn affects(self, control: ControlId) -> (r: Self)
        ensures
            r == (AuthorityObligation { affected_control_ids: r.affected_control_ids, ..self }),
            r.affected_control_ids@ == self.affected_control_ids@.push(control),
    {
        let mut r = self;
        r.affected_control_ids.push(control);
        r
    }

    /// Adds a reference-only artifact.
    pub fn with_external_ref(self, external_ref: ExternalRef) -> (r: Self)
        ensures
            r == (AuthorityObligation { external_refs: r.external_refs, ..self }),
            r.external_refs@ == self.external_refs@.push(external_ref),
    {
        let mut r = self;
        r.external_refs.push(external_ref);
        r
    }

    /// Marks the obligation non-waivable for production.
    pub fn non_waivable(self) -> (r: Self)
        ensures
            r == (AuthorityObligation { non_waivable: true, ..self }),
    {
        let mut r = self;
        r.non_waivable = true;
        r
    }

}

/// One design readiness blocker.
#[derive(Debug, PartialEq, Eq)]
pub struct DesignBlocker {
    /// Blocking control id.
    pub control: ControlId,
    /// Evidence state used by the blocker.
    pub evidence_state: EvidenceState,
    /// Deterministic blocker rule.
    pub rule: String,
    /// Deterministic blocker reason.
    pub reason: String,
    /// True when policy may not waive this blocker for production.
    pub non_waivable: bool,
    /// Stable graph paths from this blocker to the target.
    pub paths: Vec<ControlExplanationPath>,
}

/// Derived design readiness for a package, task, or control.
#[derive(Debug, PartialEq, Eq)]
pub struct DesignReadinessReport {
    /// Target package, task, or control.
    pub target: ControlId,
    /// Required release purpose.
    pub required_purpose: DesignReleasePurpose,
    /// Evaluation date.
    pub as_of_date: ProjectDate,
    /// True when no design, release, RFI, permit, inspection, or authority blocker remains.
    pub ready: bool,
    /// Current design revisions affecting the target.
    pub current_revisions: Vec<ControlId>,
    /// Purpose-specific releases affecting the target.
    pub releases: Vec<ControlId>,
    /// Blockers in stable control-id order.
    pub blockers: Vec<DesignBlocker>,
}

/// Construction design-control records.
#[derive(Debug, PartialEq, Eq)]
pub struct DesignControlSet {
    /// Design deliverable revisions.
    pub revisions: Vec<DesignRevision>,
    /// Design reviews and decisions.
    pub reviews: Vec<DesignReview>,
    /// RFIs.
    pub rfis: Vec<RfiRecord>,
    /// Purpose-specific releases.
    pub releases: Vec<DesignRelease>,
    /// Authority permits.
    pub permits: Vec<PermitRecord>,
    /// Authority inspections.
    pub inspections: Vec<InspectionRecord>,
    /// Authority obligations.
    pub authority_obligations: Vec<AuthorityObligation>,
}

impl DesignControlSet {
    /// Builds an empty design-control set.
    pub fn new() -> (s: Self)
        ensures
            s.revisions@.len() == 0,
            s.reviews@.len() == 0,
            s.rfis@.len() == 0,
            s.releases@.len() == 0,
            s.permits@.len() == 0,
            s.inspections@.len() == 0,
            s.authority_obligations@.len() == 0,
    {
        DesignControlSet {
            revisions: Vec::new(),
            reviews: Vec::new(),
            rfis: Vec::new(),
            releases: Vec::new(),
            permits: Vec::new(),
            inspections: Vec::new(),
            authority_obligations: Vec::new(),
        }
    }

    /// Adds a design revision.
    pub fn with_revision(self, revision: DesignRevision) -> (s: Self)
        ensures
            s == (DesignControlSet { revisions: s.revisions, ..self }),
            s.revisions@ == self.revisions@.push(revision),
    {
        let mut s = self;
        s.revisions.push(revision);
        s
    }

    /// Adds a design review.
    pub fn with_review(self, review: DesignReview) -> (s: Self)
        ensures
            s == (DesignControlSet { reviews: s.reviews, ..self }),
            s.reviews@ == self.reviews@.push(review),
    {
        let mut s = self;
        s.reviews.push(review);
        s
    }

    /// Adds an RFI.
    pub fn with_rfi(self, rfi: RfiRecord) -> (s: Self)
        ensures
            s == (DesignControlSet { rfis: s.rfis, ..self }),
            s.rfis@ == self.rfis@.push(rfi),
    {
        let mut s = self;
        s.rfis.push(rfi);
        s
    }

    /// Adds a design release.
    pub fn with_release(self, release: DesignRelease) -> (s: Self)
        ensures
            s == (DesignControlSet { releases: s.releases, ..self }),
            s.releases@ == self.releases@.push(release),
    {
        let mut s = self;
        s.releases.push(release);
        s
    }

    /// Adds a permit.
    pub fn with_permit(self, permit: PermitRecord) -> (s: Self)
        ensures
            s == (DesignControlSet { permits: s.permits, ..self }),
            s.permits@ == self.permits@.push(permit),
    {
        let mut s = self;
        s.permits.push(permit);
        s
    }

    /// Adds an inspection.
    pub fn with_inspection(self, inspection: InspectionRecord) -> (s: Self)
        ensures
            s == (DesignControlSet { inspections: s.inspections, ..self }),
            s.inspections@ == self.inspections@.push(inspection),
    {
        let mut s = self;
        s.inspections.push(inspection);
        s
    }

    /// Adds an authority obligation.
    pub fn with_authority_obligation(self, obligation: AuthorityObligation) -> (s: Self)
        ensures
            s == (DesignControlSet { authority_obligations: s.authority_obligations, ..self }),
            s.authority_obligations@ == self.authority_obligations@.push(obligation),
    {
        let mut s = self;
        s.authority_obligations.push(obligation);
        s
    }
}

/// First problem with the shared fields of a design record: a blank title,
/// no affected control, no reference-only artifact.
pub open spec fn common_fault(kind: &'static str, title: Seq<char>, affected: nat, refs: nat) -> Option<ConstructionProjectError> {
    if is_blank(title) {
        Some(ConstructionProjectError::EmptyField(kind))
    } else if affected == 0 {
        Some(ConstructionProjectError::EmptyCollection("affected_control_ids"))
    } else if refs == 0 {
        Some(ConstructionProjectError::EmptyCollection("external_refs"))
    } else {
        None
    }
}

/// Some revision of the set carries the control id `x`.
pub open spec fn names_revision(revs: Seq<DesignRevision>, x: Seq<char>) -> bool {
    exists|j: int| 0 <= j < revs.len() && (#[trigger] revs[j]).control@ == x
}

/// The problem with a revision: its shared fields, then a superseded revision
/// that the set does not hold.
pub open spec fn revision_fault(revs: Seq<DesignRevision>, r: DesignRevision) -> Option<ConstructionProjectError> {
    match common_fault("design_revision", r.revision@, r.affected_control_ids@.len(), r.external_refs@.len()) {
        Some(e) => Some(e),
        None => match r.supersedes {
            Some(x) => if names_revision(revs, x@) {
                None
            } else {
                Some(ConstructionProjectError::MissingDesignRevision { kind: "design_revision", control: r.control, revision: x })
            },
            None => None,
        },
    }
}

/// The problem with a review: its shared fields, then a reviewed revision that the set does not hold.
pub open spec fn review_fault(revs: Seq<DesignRevision>, r: DesignReview) -> Option<ConstructionProjectError> {
    match common_fault("design_review", "review"@, r.affected_control_ids@.len(), r.external_refs@.len()) {
        Some(e) => Some(e),
        None => if names_revision(revs, r.design_revision@) {
            None
        } else {
            Some(ConstructionProjectError::MissingDesignRevision { kind: "design_review", control: r.control, revision: r.design_revision })
        },
    }
}

/// The problem with a release: its shared fields, a released revision that the
/// set does not hold, then a releasing role other than the release authority.
pub open spec fn release_fault(revs: Seq<DesignRevision>, r: DesignRelease) -> Option<ConstructionProjectError> {
    match common_fault("design_release", r.revision@, r.affected_control_ids@.len(), r.external_refs@.len()) {
        Some(e) => Some(e),
        None => if !names_revision(revs, r.design_revision@) {
            Some(ConstructionProjectError::MissingDesignRevision { kind: "design_release", control: r.control, revision: r.design_revision })
        } else if r.released_by@ != r.release_authority@ {
            Some(ConstructionProjectError::DesignReleaseAuthorityMismatch {
                release: r.control,
                expected: r.release_authority,
                actual: r.released_by,
            })
        } else {
            None
        },
    }
}

/// Revision check over the set's revisions.
pub open spec fn revision_check(revs: Seq<DesignRevision>) -> spec_fn(DesignRevision) -> Option<ConstructionProjectError> {
    |r: DesignRevision| revision_fault(revs, r)
}

/// Review check over the set's revisions.
pub open spec fn review_check(revs: Seq<DesignRevision>) -> spec_fn(DesignReview) -> Option<ConstructionProjectError> {
    |r: DesignReview| review_fault(revs, r)
}

/// RFI check.
pub open spec fn rfi_check() -> spec_fn(RfiRecord) -> Option<ConstructionProjectError> {
    |r: RfiRecord| common_fault("rfi", "rfi"@, r.affected_control_ids@.len(), r.external_refs@.len())
}

/// Release check over the set's revisions.
pub open spec fn release_check(revs: Seq<DesignRevision>) -> spec_fn(DesignRelease) -> Option<ConstructionProjectError> {
    |r: DesignRelease| release_fault(revs, r)
}

/// Permit check.
pub open spec fn permit_check() -> spec_fn(PermitRecord) -> Option<ConstructionProjectError> {
    |r: PermitRecord| common_fault("permit", "permit"@, r.affected_control_ids@.len(), r.external_refs@.len())
}

/// Inspection check.
pub open spec fn inspection_check() -> spec_fn(InspectionRecord) -> Option<ConstructionProjectError> {
    |r: InspectionRecord| common_fault("inspection", "inspection"@, r.affected_control_ids@.len(), r.external_refs@.len())
}

/// Authority obligation check.
pub open spec fn obligation_check() -> spec_fn(AuthorityObligation) -> Option<ConstructionProjectError> {
    |r: AuthorityObligation| common_fault("authority_obligation", "authority obligation"@, r.affected_control_ids@.len(), r.external_refs@.len())
}

/// The problem of the first record of `s` that has one.
pub open spec fn first_fault<T>(s: Seq<T>, f: spec_fn(T) -> Option<ConstructionProjectError>) -> Option<ConstructionProjectError> {
    match first_where(|i: int| f(s[i]) is Some, s.len() as int) {
        Some(i) => f(s[i]),
        None => None,
    }
}

/// `a` when it holds a problem, else `b`.
pub open spec fn or_else(a: Option<ConstructionProjectError>, b: Option<ConstructionProjectError>) -> Option<ConstructionProjectError> {
    if a is Some {
        a
    } else {
        b
    }
}

/// The first problem of the set: revisions, reviews, RFIs, releases, permits,
/// inspections and authority obligations are checked in that order.
pub open spec fn design_set_fault(s: DesignControlSet) -> Option<ConstructionProjectError> {
    let revs = s.revisions@;
    or_else(first_fault(revs, revision_check(revs)),
    or_else(first_fault(s.reviews@, review_check(revs)),
    or_else(first_fault(s.rfis@, rfi_check()),
    or_else(first_fault(s.releases@, release_check(revs)),
    or_else(first_fault(s.permits@, permit_check()),
    or_else(first_fault(s.inspections@, inspection_check()),
    first_fault(s.authority_obligations@, obligation_check())))))))
}

/// Validation of the set refuses its first problem, and only then.
pub open spec fn design_set_check(s: DesignControlSet, r: Result<(), ConstructionProjectError>) -> bool {
    match design_set_fault(s) {
        Some(e) => r == Err::<(), ConstructionProjectError>(e),
        None => r is Ok,
    }
}

proof fn lemma_first_fault_found<T>(s: Seq<T>, f: spec_fn(T) -> Option<ConstructionProjectError>, i: int)
    requires
        0 <= i < s.len(),
        f(s[i]) is Some,
        forall|j: int| 0 <= j < i ==> #[trigger] f(s[j]) is None,
    ensures
        first_fault(s, f) == f(s[i]),
{
    let p = |k: int| f(s[k]) is Some;
    lemma_first_where_all_false(p, i);
    assert(first_where(p, i + 1) == Some(i));
    lemma_first_where_stable(p, i + 1, s.len() as int);
}

proof fn lemma_first_fault_none<T>(s: Seq<T>, f: spec_fn(T) -> Option<ConstructionProjectError>)
    requires
        forall|j: int| 0 <= j < s.len() ==> #[trigger] f(s[j]) is None,
    ensures
        first_fault(s, f) is None,
{
    let p = |k: int| f(s[k]) is Some;
    lemma_first_where_all_false(p, s.len() as int);
}

fn check_common(kind: &'static str, title: &str, affected: &Vec<ControlId>, refs: &Vec<ExternalRef>) -> (r: Result<(), ConstructionProjectError>)
    ensures
        match common_fault(kind, title@, affected@.len(), refs@.len()) {
            Some(e) => r == Err::<(), ConstructionProjectError>(e),
            None => r is Ok,
        },
{
    if text_is_blank(title) {
        return Err(ConstructionProjectError::EmptyField(kind));
    }
    if affected.len() == 0 {
        return Err(ConstructionProjectError::EmptyCollection("affected_control_ids"));
    }
    if refs.len() == 0 {
        return Err(ConstructionProjectError::EmptyCollection("external_refs"));
    }
    Ok(())
}

impl DesignControlSet {
    fn revision_known(&self, x: &ControlId) -> (b: bool)
        ensures
            b == names_revision(self.revisions@, x@),
    {
        let mut i: usize = 0;
        while i < self.revisions.len()
            invariant
                i <= self.revisions@.len(),
                forall|j: int| 0 <= j < i ==> (#[trigger] self.revisions@[j]).control@ != x@,
            decreases self.revisions.len() - i,
        {
            if self.revisions[i].control.same(x) {
                return true;
            }
            i = i + 1;
        }
        false
    }

    /// Checks every record of the set and refuses the first problem found.
    fn validate(&self) -> (r: Result<(), ConstructionProjectError>)
        ensures
            design_set_check(*self, r),
    {
        let ghost revs = self.revisions@;
        let mut i: usize = 0;
        while i < self.revisions.len()
            invariant
                revs == self.revisions@,
                i <= revs.len(),
                forall|j: int| 0 <= j < i ==> #[trigger] revision_check(revs)(revs[j]) is None,
            decreases self.revisions.len() - i,
        {
            let rev = &self.revisions[i];
            if let Err(e) = check_common("design_revision", rev.revision.as_str(), &rev.affected_control_ids, &rev.external_refs) {
                proof { lemma_first_fault_found(revs, revision_check(revs), i as int); }
                return Err(e);
            }
            if let Some(x) = &rev.supersedes {
                if !self.revision_known(x) {
                    let e = ConstructionProjectError::MissingDesignRevision {
                        kind: "design_revision",
                        control: rev.control.clone(),
                        revision: x.clone(),
                    };
                    proof { lemma_first_fault_found(revs, revision_check(revs), i as int); }
                    return Err(e);
                }
            }
            i = i + 1;
        }
        proof { lemma_first_fault_none(revs, revision_check(revs)); }
        let ghost s = self.reviews@;
        let mut i: usize = 0;
        while i < self.reviews.len()
            invariant
                revs == self.revisions@,
                s == self.reviews@,
                i <= s.len(),
                first_fault(revs, revision_check(revs)) is None,
                forall|j: int| 0 <= j < i ==> #[trigger] review_check(revs)(s[j]) is None,
            decreases self.reviews.len() - i,
        {
            let rec = &self.reviews[i];
            if let Err(e) = check_common("design_review", "review", &rec.affected_control_ids, &rec.external_refs) {
                proof { lemma_first_fault_found(s, review_check(revs), i as int); }
                return Err(e);
            }
            if !self.revision_known(&rec.design_revision) {
                let e = ConstructionProjectError::MissingDesignRevision {
                    kind: "design_review",
                    control: rec.control.clone(),
                    revision: rec.design_revision.clone(),
                };
                proof { lemma_first_fault_found(s, review_check(revs), i as int); }
                return Err(e);
            }
            i = i + 1;
        }
        proof { lemma_first_fault_none(s, review_check(revs)); }
        let ghost s = self.rfis@;
        let mut i: usize = 0;
        while i < self.rfis.len()
            invariant
                revs == self.revisions@,
                s == self.rfis@,
                i <= s.len(),
                first_fault(revs, revision_check(revs)) is None,
                first_fault(self.reviews@, review_check(revs)) is None,
                forall|j: int| 0 <= j < i ==> #[trigger] rfi_check()(s[j]) is None,
            decreases self.rfis.len() - i,
        {
            let rec = &self.rfis[i];
            if let Err(e) = check_common("rfi", "rfi", &rec.affected_control_ids, &rec.external_refs) {
                proof { lemma_first_fault_found(s, rfi_check(), i as int); }
                return Err(e);
            }
            i = i + 1;
        }
        proof { lemma_first_fault_none(s, rfi_check()); }
        let ghost s = self.releases@;
        let mut i: usize = 0;
        while i < self.releases.len()
            invariant
                revs == self.revisions@,
                s == self.releases@,
                i <= s.len(),
                first_fault(revs, revision_check(revs)) is None,
                first_fault(self.reviews@, review_check(revs)) is None,
                first_fault(self.rfis@, rfi_check()) is None,
                forall|j: int| 0 <= j < i ==> #[trigger] release_check(revs)(s[j]) is None,
            decreases self.releases.len() - i,
        {
            let rec = &self.releases[i];
            if let Err(e) = check_common("design_release", rec.revision.as_str(), &rec.affected_control_ids, &rec.external_refs) {
                proof { lemma_first_fault_found(s, release_check(revs), i as int); }
                return Err(e);
            }
            if !self.revision_known(&rec.design_revision) {
                let e = ConstructionProjectError::MissingDesignRevision {
                    kind: "design_release",
                    control: rec.control.clone(),
                    revision: rec.design_revision.clone(),
                };
                proof { lemma_first_fault_found(s, release_check(revs), i as int); }
                return Err(e);
            }
            if !rec.released_by.same(&rec.release_authority) {
                let e = ConstructionProjectError::DesignReleaseAuthorityMismatch {
                    release: rec.control.clone(),
                    expected: rec.release_authority.clone(),
                    actual: rec.released_by.clone(),
                };
                proof { lemma_first_fault_found(s, release_check(revs), i as int); }
                return Err(e);
            }
            i = i + 1;
        }
        proof { lemma_first_fault_none(s, release_check(revs)); }
        let ghost s = self.permits@;
        let mut i: usize = 0;
        while i < self.permits.len()
            invariant
                revs == self.revisions@,
                s == self.permits@,
                i <= s.len(),
                first_fault(revs, revision_check(revs)) is None,
                first_fault(self.reviews@, review_check(revs)) is None,
                first_fault(self.rfis@, rfi_check()) is None,
                first_fault(self.releases@, release_check(revs)) is None,
                forall|j: int| 0 <= j < i ==> #[trigger] permit_check()(s[j]) is None,
            decreases self.permits.len() - i,
        {
            let rec = &self.permits[i];
            if let Err(e) = check_common("permit", "permit", &rec.affected_control_ids, &rec.external_refs) {
                proof { lemma_first_fault_found(s, permit_check(), i as int); }
                return Err(e);
            }
            i = i + 1;
        }
        proof { lemma_first_fault_none(s, permit_check()); }
        let ghost s = self.inspections@;
        let mut i: usize = 0;
        while i < self.inspections.len()
            invariant
                revs == self.revisions@,
                s == self.inspections@,
                i <= s.len(),
                first_fault(revs, revision_check(revs)) is None,
                first_fault(self.reviews@, review_check(revs)) is None,
                first_fault(self.rfis@, rfi_check()) is None,
                first_fault(self.releases@, release_check(revs)) is None,
                first_fault(self.permits@, permit_check()) is None,
                forall|j: int| 0 <= j < i ==> #[trigger] inspection_check()(s[j]) is None,
            decreases self.inspections.len() - i,
        {
            let rec = &self.inspections[i];
            if let Err(e) = check_common("inspection", "inspection", &rec.affected_control_ids, &rec.external_refs) {
                proof { lemma_first_fault_found(s, inspection_check(), i as int); }
                return Err(e);
            }
            i = i + 1;
        }
        proof { lemma_first_fault_none(s, inspection_check()); }
        let ghost s = self.authority_obligations@;
        let mut i: usize = 0;
        while i < self.authority_obligations.len()
            invariant
                revs == self.revisions@,
                s == self.authority_obligations@,
                i <= s.len(),
                first_fault(revs, revision_check(revs)) is None,
                first_fault(self.reviews@, review_check(revs)) is None,
                first_fault(self.rfis@, rfi_check()) is None,
                first_fault(self.releases@, release_check(revs)) is None,
                first_fault(self.permits@, permit_check()) is None,
                first_fault(self.inspections@, inspection_check()) is None,
                forall|j: int| 0 <= j < i ==> #[trigger] obligation_check()(s[j]) is None,
            decreases self.authority_obligations.len() - i,
        {
            let rec = &self.authority_obligations[i];
            if let Err(e) = check_common("authority_obligation", "authority obligation", &rec.affected_control_ids, &rec.external_refs) {
                proof { lemma_first_fault_found(s, obligation_check(), i as int); }
                return Err(e);
            }
            i = i + 1;
        }
        proof { lemma_first_fault_none(s, obligation_check()); }
        Ok(())
    }
}
/// One step of building the design graph of a target.
pub enum GraphStep {
    /// Add or confirm a node of the given kind.
    Node(ControlId, ControlNodeKind),
    /// Add a package node unless a node with the id is present.
    PackageIfAbsent(ControlId),
    /// Add an edge.
    Edge(ControlId, ControlId, ControlEdgeKind),
}

/// Nodes and edges built so far, and the step that was refused, if one was.
pub type GraphState = (Seq<ControlNode>, Seq<ControlEdge>, Option<GraphStep>);

/// The graph refuses `op`: a node of another kind under the same id, or an
/// edge with an absent endpoint or one that is already present.
pub open spec fn step_refused(nodes: Seq<ControlNode>, edges: Seq<ControlEdge>, op: GraphStep) -> bool {
    match op {
        GraphStep::Node(id, kind) => node_kind(nodes, id@) matches Some(existing) && existing != kind,
        GraphStep::PackageIfAbsent(_) => false,
        GraphStep::Edge(s, t, k) => !has_node(nodes, s@) || !has_node(nodes, t@) || has_edge(edges, s@, t@, k),
    }
}

/// The state after `op`; a refused step stops the build, and a stopped build stays stopped.
pub open spec fn graph_step(st: GraphState, op: GraphStep) -> GraphState {
    if st.2 is Some {
        st
    } else if step_refused(st.0, st.1, op) {
        (st.0, st.1, Some(op))
    } else {
        match op {
            GraphStep::Node(id, kind) => if has_node(st.0, id@) {
                st
            } else {
                (st.0.push(ControlNode { id, kind }), st.1, None)
            },
            GraphStep::PackageIfAbsent(id) => if has_node(st.0, id@) {
                st
            } else {
                (st.0.push(ControlNode { id, kind: ControlNodeKind::Package }), st.1, None)
            },
            GraphStep::Edge(s, t, k) => (st.0, st.1.push(ControlEdge { source: s, target: t, kind: k }), None),
        }
    }
}

/// Step function of the graph build.
pub open spec fn graph_stepper() -> spec_fn(GraphState, GraphStep) -> GraphState {
    |st: GraphState, op: GraphStep| graph_step(st, op)
}

/// The empty graph, with no step refused.
pub open spec fn empty_graph_state() -> GraphState {
    (Seq::<ControlNode>::empty(), Seq::<ControlEdge>::empty(), None::<GraphStep>)
}

/// The state after running `ops` from the empty graph.
pub open spec fn run_steps(ops: Seq<GraphStep>) -> GraphState {
    ops.fold_left(empty_graph_state(), graph_stepper())
}

/// `err` is what the graph answers to the refused step `op`.
pub open spec fn step_refusal(nodes: Seq<ControlNode>, edges: Seq<ControlEdge>, op: GraphStep, err: ConstructionProjectError) -> bool {
    match op {
        GraphStep::Node(id, kind) => err matches ConstructionProjectError::DuplicateId { kind: k, id: text }
            && k == "control_graph.node" && text@ == id@,
        GraphStep::PackageIfAbsent(_) => false,
        GraphStep::Edge(s, t, k) => add_edge_outcome(nodes, edges, edges, s, t, k, Err(err)),
    }
}

/// Running `ops` gives the built well-formed graph, or the refusal of the first refused step.
pub open spec fn graph_run_result(ops: Seq<GraphStep>, r: Result<ControlGraph, ConstructionProjectError>) -> bool {
    let st = run_steps(ops);
    match st.2 {
        None => r matches Ok(g) && g.nodes@ == st.0 && g.edges@ == st.1 && g.wf(),
        Some(op) => r matches Err(e) && step_refusal(st.0, st.1, op, e),
    }
}

/// The steps of every element of `s`, in order.
pub open spec fn concat_map<T, U>(s: Seq<T>, f: spec_fn(T) -> Seq<U>) -> Seq<U>
    decreases s.len(),
{
    if s.len() == 0 {
        Seq::empty()
    } else {
        concat_map(s.drop_last(), f) + f(s.last())
    }
}

/// For each affected id: a package node when absent, then the prerequisite edge from `c`.
pub open spec fn affected_step(c: ControlId) -> spec_fn(ControlId) -> Seq<GraphStep> {
    |a: ControlId| seq![GraphStep::PackageIfAbsent(a), GraphStep::Edge(c, a, ControlEdgeKind::Prerequisite)]
}

/// The node of a record, then its affected ids.
pub open spec fn record_steps(c: ControlId, kind: ControlNodeKind, affected: Seq<ControlId>) -> Seq<GraphStep> {
    seq![GraphStep::Node(c, kind)] + concat_map(affected, affected_step(c))
}

/// Revision steps, with the edge to a superseded revision.
pub open spec fn revision_steps() -> spec_fn(DesignRevision) -> Seq<GraphStep> {
    |r: DesignRevision| record_steps(r.control, ControlNodeKind::DesignRevision, r.affected_control_ids@) + match r.supersedes {
        Some(x) => seq![GraphStep::Edge(r.control, x, ControlEdgeKind::Changes)],
        None => Seq::empty(),
    }
}

/// Review steps, with the decision edge to the reviewed revision.
pub open spec fn review_steps() -> spec_fn(DesignReview) -> Seq<GraphStep> {
    |r: DesignReview| record_steps(r.control, ControlNodeKind::DesignReview, r.affected_control_ids@)
        + seq![GraphStep::Edge(r.control, r.design_revision, ControlEdgeKind::Decides)]
}

/// RFI steps.
pub open spec fn rfi_steps() -> spec_fn(RfiRecord) -> Seq<GraphStep> {
    |r: RfiRecord| record_steps(r.control, ControlNodeKind::Rfi, r.affected_control_ids@)
}

/// Release steps, with the decision edge to the released revision.
pub open spec fn release_steps() -> spec_fn(DesignRelease) -> Seq<GraphStep> {
    |r: DesignRelease| record_steps(r.control, ControlNodeKind::DesignRelease, r.affected_control_ids@)
        + seq![GraphStep::Edge(r.control, r.design_revision, ControlEdgeKind::Decides)]
}

/// Permit steps.
pub open spec fn permit_steps() -> spec_fn(PermitRecord) -> Seq<GraphStep> {
    |r: PermitRecord| record_steps(r.control, ControlNodeKind::Permit, r.affected_control_ids@)
}

/// Inspection steps.
pub open spec fn inspection_steps() -> spec_fn(InspectionRecord) -> Seq<GraphStep> {
    |r: InspectionRecord| record_steps(r.control, ControlNodeKind::Inspection, r.affected_control_ids@)
}

/// Authority obligation steps.
pub open spec fn obligation_steps() -> spec_fn(AuthorityObligation) -> Seq<GraphStep> {
    |r: AuthorityObligation| record_steps(r.control, ControlNodeKind::AuthorityObligation, r.affected_control_ids@)
}

/// The steps that build the design graph of `target`: the target as a package,
/// then every record in list order.
pub open spec fn design_steps(s: DesignControlSet, target: ControlId) -> Seq<GraphStep> {
    seq![GraphStep::Node(target, ControlNodeKind::Package)]
        + concat_map(s.revisions@, revision_steps())
        + concat_map(s.reviews@, review_steps())
        + concat_map(s.rfis@, rfi_steps())
        + concat_map(s.releases@, release_steps())
        + concat_map(s.permits@, permit_steps())
        + concat_map(s.inspections@, inspection_steps())
        + concat_map(s.authority_obligations@, obligation_steps())
}

/// Building the design graph of `target` gives the graph of its steps, or the
/// refusal of the first refused step.
pub open spec fn design_graph_result(s: DesignControlSet, target: ControlId, r: Result<ControlGraph, ConstructionProjectError>) -> bool {
    graph_run_result(design_steps(s, target), r)
}

proof fn lemma_stopped_stays(ops: Seq<GraphStep>, st: GraphState)
    requires
        st.2 is Some,
    ensures
        ops.fold_left(st, graph_stepper()) == st,
    decreases ops.len(),
{
    if ops.len() > 0 {
        lemma_stopped_stays(ops.drop_last(), st);
    }
}

proof fn lemma_concat_map_push<T, U>(s: Seq<T>, f: spec_fn(T) -> Seq<U>, i: int)
    requires
        0 <= i < s.len(),
    ensures
        concat_map(s.take(i + 1), f) == concat_map(s.take(i), f) + f(s[i]),
{
    assert(s.take(i + 1).drop_last() =~= s.take(i));
}

fn push_record_steps(ops: &mut Vec<GraphStep>, control: &ControlId, kind: ControlNodeKind, affected: &Vec<ControlId>)
    ensures
        final(ops)@ == old(ops)@ + record_steps(*control, kind, affected@),
{
    let ghost base = ops@;
    ops.push(GraphStep::Node(control.clone(), kind));
    let mut j: usize = 0;
    while j < affected.len()
        invariant
            j <= affected@.len(),
            ops@ == base + seq![GraphStep::Node(*control, kind)] + concat_map(affected@.take(j as int), affected_step(*control)),
        decreases affected.len() - j,
    {
        ops.push(GraphStep::PackageIfAbsent(affected[j].clone()));
        ops.push(GraphStep::Edge(control.clone(), affected[j].clone(), ControlEdgeKind::Prerequisite));
        proof {
            lemma_concat_map_push(affected@, affected_step(*control), j as int);
            assert(ops@ =~= base + seq![GraphStep::Node(*control, kind)] + concat_map(affected@.take(j + 1), affected_step(*control)));
        }
        j = j + 1;
    }
    proof {
        assert(affected@.take(affected@.len() as int) =~= affected@);
        assert(ops@ =~= base + record_steps(*control, kind, affected@));
    }
}

fn run_graph_steps(ops: &Vec<GraphStep>) -> (r: Result<ControlGraph, ConstructionProjectError>)
    ensures
        graph_run_result(ops@, r),
{
    let ghost init: GraphState = empty_graph_state();
    let mut g = ControlGraph::new();
    proof {
        assert(g.nodes@ =~= Seq::<ControlNode>::empty());
        assert(g.edges@ =~= Seq::<ControlEdge>::empty());
    }
    let mut k: usize = 0;
    while k < ops.len()
        invariant
            init == empty_graph_state(),
            k <= ops@.len(),
            g.wf(),
            ops@.take(k as int).fold_left(init, graph_stepper()) == (g.nodes@, g.edges@, None::<GraphStep>),
        decreases ops.len() - k,
    {
        let ghost before: GraphState = (g.nodes@, g.edges@, None::<GraphStep>);
        let ghost op = ops@[k as int];
        proof {
            assert(ops@.take(k + 1).drop_last() =~= ops@.take(k as int));
        }
        let step: Result<(), ConstructionProjectError> = match &ops[k] {
            GraphStep::Node(id, kind) => g.add_node(id.clone(), *kind),
            GraphStep::PackageIfAbsent(id) => {
                if g.node_index(id).is_none() {
                    g.add_node(id.clone(), ControlNodeKind::Package)
                } else {
                    Ok(())
                }
            },
            GraphStep::Edge(s, t, kd) => g.add_edge(s.clone(), t.clone(), *kd),
        };
        match step {
            Err(e) => {
                proof {
                    assert(graph_step(before, op) == (before.0, before.1, Some(op)));
                    let all = ops@;
                    assert(all.take(k + 1).last() == op);
                    assert(all.take(k + 1).fold_left(init, graph_stepper()) == graph_step(before, op));
                    all.lemma_fold_left_split(init, graph_stepper(), k + 1);
                    assert(all.subrange(0, k + 1) =~= all.take(k + 1));
                    let stopped: GraphState = (before.0, before.1, Some(op));
                    assert(all.subrange(0, k + 1).fold_left(init, graph_stepper()) == stopped);
                    lemma_stopped_stays(all.subrange(k + 1, all.len() as int), stopped);
                    assert(all.fold_left(init, graph_stepper()) == stopped);
                }
                return Err(e);
            },
            Ok(()) => {
                proof {
                    assert(graph_step(before, op) == (g.nodes@, g.edges@, None::<GraphStep>));
                }
            },
        }
        k = k + 1;
    }
    proof {
        assert(ops@.take(ops@.len() as int) =~= ops@);
    }
    Ok(g)
}

impl DesignControlSet {
    /// Builds the design graph of `target`: the target as a package, each
    /// record with prerequisite edges to what it affects (adding those as
    /// packages when absent), supersession and decision edges.
    fn graph_for_target(&self, target: &ControlId) -> (r: Result<ControlGraph, ConstructionProjectError>)
        ensures
            design_graph_result(*self, *target, r),
            r matches Ok(g) ==> g.wf(),
    {
        let mut ops: Vec<GraphStep> = Vec::new();
        ops.push(GraphStep::Node(target.clone(), ControlNodeKind::Package));
        let ghost mut done: Seq<GraphStep> = seq![GraphStep::Node(*target, ControlNodeKind::Package)];
        let mut i: usize = 0;
        while i < self.revisions.len()
            invariant
                i <= self.revisions@.len(),
                ops@ == done + concat_map(self.revisions@.take(i as int), revision_steps()),
            decreases self.revisions.len() - i,
        {
            let rec = &self.revisions[i];
            let ghost before = ops@;
            push_record_steps(&mut ops, &rec.control, ControlNodeKind::DesignRevision, &rec.affected_control_ids);
            if let Some(x) = &rec.supersedes {
                ops.push(GraphStep::Edge(rec.control.clone(), x.clone(), ControlEdgeKind::Changes));
            }
            proof {
                lemma_concat_map_push(self.revisions@, revision_steps(), i as int);
                assert(ops@ =~= done + concat_map(self.revisions@.take(i + 1), revision_steps()));
            }
            i = i + 1;
        }
        proof {
            assert(self.revisions@.take(self.revisions@.len() as int) =~= self.revisions@);
            done = done + concat_map(self.revisions@, revision_steps());
        }
        let mut i: usize = 0;
        while i < self.reviews.len()
            invariant
                i <= self.reviews@.len(),
                ops@ == done + concat_map(self.reviews@.take(i as int), review_steps()),
            decreases self.reviews.len() - i,
        {
            let rec = &self.reviews[i];
            let ghost before = ops@;
            push_record_steps(&mut ops, &rec.control, ControlNodeKind::DesignReview, &rec.affected_control_ids);
            ops.push(GraphStep::Edge(rec.control.clone(), rec.design_revision.clone(), ControlEdgeKind::Decides));
            proof {
                lemma_concat_map_push(self.reviews@, review_steps(), i as int);
                assert(ops@ =~= done + concat_map(self.reviews@.take(i + 1), review_steps()));
            }
            i = i + 1;
        }
        proof {
            assert(self.reviews@.take(self.reviews@.len() as int) =~= self.reviews@);
            done = done + concat_map(self.reviews@, review_steps());
        }
        let mut i: usize = 0;
        while i < self.rfis.len()
            invariant
                i <= self.rfis@.len(),
                ops@ == done + concat_map(self.rfis@.take(i as int), rfi_steps()),
            decreases self.rfis.len() - i,
        {
            let rec = &self.rfis[i];
            let ghost before = ops@;
            push_record_steps(&mut ops, &rec.control, ControlNodeKind::Rfi, &rec.affected_control_ids);
            proof {
                lemma_concat_map_push(self.rfis@, rfi_steps(), i as int);
                assert(ops@ =~= done + concat_map(self.rfis@.take(i + 1), rfi_steps()));
            }
            i = i + 1;
        }
        proof {
            assert(self.rfis@.take(self.rfis@.len() as int) =~= self.rfis@);
            done = done + concat_map(self.rfis@, rfi_steps());
        }
        let mut i: usize = 0;
        while i < self.releases.len()
            invariant
                i <= self.releases@.len(),
                ops@ == done + concat_map(self.releases@.take(i as int), release_steps()),
            decreases self.releases.len() - i,
        {
            let rec = &self.releases[i];
            let ghost before = ops@;
            push_record_steps(&mut ops, &rec.control, ControlNodeKind::DesignRelease, &rec.affected_control_ids);
            ops.push(GraphStep::Edge(rec.control.clone(), rec.design_revision.clone(), ControlEdgeKind::Decides));
            proof {
                lemma_concat_map_push(self.releases@, release_steps(), i as int);
                assert(ops@ =~= done + concat_map(self.releases@.take(i + 1), release_steps()));
            }
            i = i + 1;
        }
        proof {
            assert(self.releases@.take(self.releases@.len() as int) =~= self.releases@);
            done = done + concat_map(self.releases@, release_steps());
        }
        let mut i: usize = 0;
        while i < self.permits.len()
            invariant
                i <= self.permits@.len(),
                ops@ == done + concat_map(self.permits@.take(i as int), permit_steps()),
            decreases self.permits.len() - i,
        {
            let rec = &self.permits[i];
            let ghost before = ops@;
            push_record_steps(&mut ops, &rec.control, ControlNodeKind::Permit, &rec.affected_control_ids);
            proof {
                lemma_concat_map_push(self.permits@, permit_steps(), i as int);
                assert(ops@ =~= done + concat_map(self.permits@.take(i + 1), permit_steps()));
            }
            i = i + 1;
        }
        proof {
            assert(self.permits@.take(self.permits@.len() as int) =~= self.permits@);
            done = done + concat_map(self.permits@, permit_steps());
        }
        let mut i: usize = 0;
        while i < self.inspections.len()
            invariant
                i <= self.inspections@.len(),
                ops@ == done + concat_map(self.inspections@.take(i as int), inspection_steps()),
            decreases self.inspections.len() - i,
        {
            let rec = &self.inspections[i];
            let ghost before = ops@;
            push_record_steps(&mut ops, &rec.control, ControlNodeKind::Inspection, &rec.affected_control_ids);
            proof {
                lemma_concat_map_push(self.inspections@, inspection_steps(), i as int);
                assert(ops@ =~= done + concat_map(self.inspections@.take(i + 1), inspection_steps()));
            }
            i = i + 1;
        }
        proof {
            assert(self.inspections@.take(self.inspections@.len() as int) =~= self.inspections@);
            done = done + concat_map(self.inspections@, inspection_steps());
        }
        let mut i: usize = 0;
        while i < self.authority_obligations.len()
            invariant
                i <= self.authority_obligations@.len(),
                ops@ == done + concat_map(self.authority_obligations@.take(i as int), obligation_steps()),
            decreases self.authority_obligations.len() - i,
        {
            let rec = &self.authority_obligations[i];
            let ghost before = ops@;
            push_record_steps(&mut ops, &rec.control, ControlNodeKind::AuthorityObligation, &rec.affected_control_ids);
            proof {
                lemma_concat_map_push(self.authority_obligations@, obligation_steps(), i as int);
                assert(ops@ =~= done + concat_map(self.authority_obligations@.take(i + 1), obligation_steps()));
            }
            i = i + 1;
        }
        proof {
            assert(self.authority_obligations@.take(self.authority_obligations@.len() as int) =~= self.authority_obligations@);
            done = done + concat_map(self.authority_obligations@, obligation_steps());
        }
        run_graph_steps(&ops)
    }
}
/// What a blocker states: control, evidence state, rule, reason, non-waivable.
pub type BlockerFacts = (ControlId, EvidenceState, Seq<char>, Seq<char>, bool);

/// The facts a blocker states.
pub open spec fn facts_of(b: DesignBlocker) -> BlockerFacts {
    (b.control, b.evidence_state, b.rule@, b.reason@, b.non_waivable)
}

/// A single blocker.
pub open spec fn blocked(c: ControlId, e: EvidenceState, rule: Seq<char>, reason: Seq<char>, non_waivable: bool) -> Seq<BlockerFacts> {
    seq![(c, e, rule, reason, non_waivable)]
}

/// A revision blocks while its evidence is not accepted.
pub open spec fn revision_blocker() -> spec_fn(DesignRevision) -> Seq<BlockerFacts> {
    |r: DesignRevision| if r.evidence_state != EvidenceState::Accepted {
        blocked(r.control, r.evidence_state, "design-revision"@, "design revision evidence is not accepted"@, false)
    } else {
        Seq::empty()
    }
}

/// A review blocks while it is not accepted.
pub open spec fn review_blocker() -> spec_fn(DesignReview) -> Seq<BlockerFacts> {
    |r: DesignReview| if r.state != DesignReviewState::Accepted {
        blocked(r.control, r.evidence_state, "design-review"@, "design review is not accepted"@, false)
    } else {
        Seq::empty()
    }
}

/// An RFI blocks while its answer is not accepted.
pub open spec fn rfi_blocker() -> spec_fn(RfiRecord) -> Seq<BlockerFacts> {
    |r: RfiRecord| if r.state != RfiState::Accepted {
        blocked(r.control, r.evidence_state, "rfi"@, if r.state == RfiState::Answered {
            "RFI is answered but not accepted"@
        } else {
            "RFI is not accepted"@
        }, false)
    } else {
        Seq::empty()
    }
}

/// A release blocks when it serves another purpose, or while its evidence is not accepted.
pub open spec fn release_blocker(purpose: DesignReleasePurpose) -> spec_fn(DesignRelease) -> Seq<BlockerFacts> {
    |r: DesignRelease| if r.purpose != purpose {
        blocked(r.control, r.evidence_state, "release-purpose"@, "release purpose does not satisfy the requested readiness purpose"@, false)
    } else if r.evidence_state != EvidenceState::Accepted {
        blocked(r.control, r.evidence_state, "design-release"@, "release evidence is not accepted"@, false)
    } else {
        Seq::empty()
    }
}

/// Evidence state of a permit on `as_of`: accepted evidence outside its validity window is expired.
pub open spec fn permit_state(p: PermitRecord, as_of: ProjectDate) -> EvidenceState {
    if p.evidence_state == EvidenceState::Accepted && !window_contains(p.validity, as_of) {
        EvidenceState::Expired
    } else {
        p.evidence_state
    }
}

/// A permit blocks unless it is granted with accepted, current evidence.
pub open spec fn permit_blocker(as_of: ProjectDate) -> spec_fn(PermitRecord) -> Seq<BlockerFacts> {
    |p: PermitRecord| {
        let st = permit_state(p, as_of);
        if p.state != PermitState::Granted || st != EvidenceState::Accepted {
            blocked(p.control, st, "permit"@, if st == EvidenceState::Expired {
                "permit is expired"@
            } else if p.state == PermitState::Hold {
                "authority permit is on hold"@
            } else {
                "permit is not granted with accepted evidence"@
            }, false)
        } else {
            Seq::empty()
        }
    }
}

/// An inspection blocks unless it passed with accepted evidence.
pub open spec fn inspection_blocker() -> spec_fn(InspectionRecord) -> Seq<BlockerFacts> {
    |r: InspectionRecord| if r.state != InspectionState::Passed || r.evidence_state != EvidenceState::Accepted {
        blocked(r.control, r.evidence_state, "inspection"@, if r.state == InspectionState::Hold {
            "authority inspection is on hold"@
        } else {
            "inspection has not passed with accepted evidence"@
        }, false)
    } else {
        Seq::empty()
    }
}

/// An authority obligation blocks unless it is satisfied with accepted evidence.
pub open spec fn obligation_blocker() -> spec_fn(AuthorityObligation) -> Seq<BlockerFacts> {
    |r: AuthorityObligation| if r.state != AuthorityObligationState::Satisfied || r.evidence_state != EvidenceState::Accepted {
        blocked(r.control, r.evidence_state, "authority-obligation"@, if r.state == AuthorityObligationState::Hold {
            "authority obligation is on hold"@
        } else {
            "authority obligation is not satisfied with accepted evidence"@
        }, r.non_waivable)
    } else {
        Seq::empty()
    }
}

/// Every blocker the records raise, in list order.
pub open spec fn design_candidates(s: DesignControlSet, purpose: DesignReleasePurpose, as_of: ProjectDate) -> Seq<BlockerFacts> {
    concat_map(s.revisions@, revision_blocker())
        + concat_map(s.reviews@, review_blocker())
        + concat_map(s.rfis@, rfi_blocker())
        + concat_map(s.releases@, release_blocker(purpose))
        + concat_map(s.permits@, permit_blocker(as_of))
        + concat_map(s.inspections@, inspection_blocker())
        + concat_map(s.authority_obligations@, obligation_blocker())
}

/// The control of the last revision that supersedes the revision `d`.
pub open spec fn superseding_of(revs: Seq<DesignRevision>, d: Seq<char>) -> Option<ControlId>
    decreases revs.len(),
{
    if revs.len() == 0 {
        None
    } else if revs.last().supersedes matches Some(x) && x@ == d {
        Some(revs.last().control)
    } else {
        superseding_of(revs.drop_last(), d)
    }
}

/// A release for the requested purpose whose revision is superseded, and which
/// was not revalidated against the superseding revision.
pub open spec fn release_is_stale(revs: Seq<DesignRevision>, purpose: DesignReleasePurpose, r: DesignRelease) -> bool {
    &&& r.purpose == purpose
    &&& superseding_of(revs, r.design_revision@) matches Some(x)
    &&& !(r.revalidated_against matches Some(v) && v@ == x@)
}

/// The release at position `i` is stale.
pub open spec fn stale_at(s: DesignControlSet, purpose: DesignReleasePurpose) -> spec_fn(int) -> bool {
    |i: int| release_is_stale(s.revisions@, purpose, s.releases@[i])
}

/// The refusal for the first stale release, when there is one.
pub open spec fn stale_refusal(s: DesignControlSet, purpose: DesignReleasePurpose) -> Option<ConstructionProjectError> {
    match first_where(stale_at(s, purpose), s.releases@.len() as int) {
        Some(i) => Some(ConstructionProjectError::StaleDesignRelease {
            release: s.releases@[i].control,
            revision: s.releases@[i].design_revision,
            superseding: superseding_of(s.revisions@, s.releases@[i].design_revision@)->0,
        }),
        None => None,
    }
}

/// The last facts in `s` for control `k`.
pub open spec fn last_entry(s: Seq<BlockerFacts>, k: Seq<char>) -> Option<BlockerFacts>
    decreases s.len(),
{
    if s.len() == 0 {
        None
    } else if s.last().0@ == k {
        Some(s.last())
    } else {
        last_entry(s.drop_last(), k)
    }
}

/// The facts of the last blocker in `s` for control `k`.
pub open spec fn last_blocker(s: Seq<DesignBlocker>, k: Seq<char>) -> Option<BlockerFacts>
    decreases s.len(),
{
    if s.len() == 0 {
        None
    } else if s.last().control@ == k {
        Some(facts_of(s.last()))
    } else {
        last_blocker(s.drop_last(), k)
    }
}

/// Blockers in strictly increasing control order.
pub open spec fn blockers_sorted(s: Seq<DesignBlocker>) -> bool {
    forall|i: int, j: int| 0 <= i < j < s.len() ==> lex_lt(#[trigger] s[i].control@, #[trigger] s[j].control@)
}

/// `out` holds, in control order and without paths, one blocker per control
/// raised in `cands`: the last one raised for it.
pub open spec fn keyed(out: Seq<DesignBlocker>, cands: Seq<BlockerFacts>) -> bool {
    &&& blockers_sorted(out)
    &&& forall|i: int| 0 <= i < out.len() ==> (#[trigger] out[i]).paths@.len() == 0
    &&& forall|k: Seq<char>| #[trigger] last_blocker(out, k) == last_entry(cands, k)
}

/// The local blockers of the set: the first stale release is refused,
/// otherwise the records' blockers keyed by control, the last raised winning.
pub open spec fn local_blockers_result(
    s: DesignControlSet,
    purpose: DesignReleasePurpose,
    as_of: ProjectDate,
    r: Result<Vec<DesignBlocker>, ConstructionProjectError>,
) -> bool {
    match stale_refusal(s, purpose) {
        Some(e) => r matches Err(x) && x == e,
        None => r matches Ok(v) && keyed(v@, design_candidates(s, purpose, as_of)),
    }
}

/// The facts of an optional blocker.
pub open spec fn cand_facts(c: Option<DesignBlocker>) -> Seq<BlockerFacts> {
    match c {
        Some(b) => seq![facts_of(b)],
        None => Seq::empty(),
    }
}

proof fn lemma_last_blocker_at(s: Seq<DesignBlocker>, i: int)
    requires
        blockers_sorted(s),
        0 <= i < s.len(),
    ensures
        last_blocker(s, s[i].control@) == Some(facts_of(s[i])),
    decreases s.len(),
{
    if i < s.len() - 1 {
        let t = s.drop_last();
        assert(lex_lt(s[i].control@, s[s.len() - 1].control@));
        lemma_lex_irreflexive(s[i].control@);
        assert(t[i] == s[i]);
        assert forall|a: int, b: int| 0 <= a < b < t.len() implies lex_lt(#[trigger] t[a].control@, #[trigger] t[b].control@) by {
            assert(t[a] == s[a] && t[b] == s[b]);
        }
        lemma_last_blocker_at(t, i);
    }
}

proof fn lemma_last_blocker_absent(s: Seq<DesignBlocker>, k: Seq<char>)
    requires
        forall|i: int| 0 <= i < s.len() ==> (#[trigger] s[i]).control@ != k,
    ensures
        last_blocker(s, k) is None,
    decreases s.len(),
{
    if s.len() > 0 {
        let t = s.drop_last();
        assert(s[s.len() - 1].control@ != k);
        assert forall|i: int| 0 <= i < t.len() implies (#[trigger] t[i]).control@ != k by {
            assert(t[i] == s[i]);
        }
        lemma_last_blocker_absent(t, k);
    }
}

/// `x` stands in `s`.
pub open spec fn holds_blocker(s: Seq<DesignBlocker>, x: DesignBlocker) -> bool {
    exists|i: int| 0 <= i < s.len() && s[i] == x
}

/// The last blocker for control `k` is the same in two sorted lists that hold
/// the same blockers for `k`.
proof fn lemma_last_blocker_same(a: Seq<DesignBlocker>, b: Seq<DesignBlocker>, k: Seq<char>)
    requires
        blockers_sorted(a),
        blockers_sorted(b),
        forall|i: int| 0 <= i < a.len() && (#[trigger] a[i]).control@ == k ==> holds_blocker(b, a[i]),
        forall|j: int| 0 <= j < b.len() && (#[trigger] b[j]).control@ == k ==> holds_blocker(a, b[j]),
    ensures
        last_blocker(a, k) == last_blocker(b, k),
{
    if exists|i: int| 0 <= i < a.len() && (#[trigger] a[i]).control@ == k {
        let i = choose|i: int| 0 <= i < a.len() && (#[trigger] a[i]).control@ == k;
        assert(holds_blocker(b, a[i]));
        let j = choose|j: int| 0 <= j < b.len() && b[j] == a[i];
        lemma_last_blocker_at(a, i);
        lemma_last_blocker_at(b, j);
    } else {
        lemma_last_blocker_absent(a, k);
        assert forall|j: int| 0 <= j < b.len() implies (#[trigger] b[j]).control@ != k by {
            if b[j].control@ == k {
                assert(holds_blocker(a, b[j]));
                let i = choose|i: int| 0 <= i < a.len() && a[i] == b[j];
                assert(a[i].control@ == k);
            }
        }
        lemma_last_blocker_absent(b, k);
    }
}

/// Adds `b` to a sorted blocker list, replacing the blocker with the same control.
fn upsert(v: &mut Vec<DesignBlocker>, b: DesignBlocker)
    requires
        blockers_sorted(old(v)@),
    ensures
        blockers_sorted(final(v)@),
        forall|i: int| 0 <= i < final(v)@.len() ==> ((#[trigger] final(v)@[i]) == b || exists|j: int| 0 <= j < old(v)@.len() && old(v)@[j] == final(v)@[i]),
        forall|k: Seq<char>| #[trigger] last_blocker(final(v)@, k) == if k == b.control@ {
            Some(facts_of(b))
        } else {
            last_blocker(old(v)@, k)
        },
{
    let ghost old_v = v@;
    let ghost bk = b.control@;
    let ghost bb = b;
    let mut p: usize = 0;
    while p < v.len() && text_precedes(v[p].control.as_str(), b.control.as_str())
        invariant
            p <= v@.len(),
            v@ == old_v,
            bk == b.control@,
            forall|j: int| 0 <= j < p ==> lex_lt((#[trigger] old_v[j]).control@, bk),
        decreases v.len() - p,
    {
        p = p + 1;
    }
    let hit = p < v.len() && v[p].control.same(&b.control);
    if hit {
        v.set(p, b);
        proof {
            let nv = v@;
            assert(nv == old_v.update(p as int, bb));
            assert forall|i: int, j: int| 0 <= i < j < nv.len() implies lex_lt(#[trigger] nv[i].control@, #[trigger] nv[j].control@) by {
                assert(nv[i].control@ == old_v[i].control@);
                assert(nv[j].control@ == old_v[j].control@);
            }
            assert forall|k: Seq<char>| #[trigger] last_blocker(nv, k) == if k == bk {
                Some(facts_of(bb))
            } else {
                last_blocker(old_v, k)
            } by {
                if k == bk {
                    lemma_last_blocker_at(nv, p as int);
                } else {
                    assert forall|i: int| 0 <= i < old_v.len() && (#[trigger] old_v[i]).control@ == k implies holds_blocker(nv, old_v[i]) by {
                        assert(nv[i] == old_v[i]);
                    }
                    assert forall|j: int| 0 <= j < nv.len() && (#[trigger] nv[j]).control@ == k implies holds_blocker(old_v, nv[j]) by {
                        assert(nv[j] == old_v[j]);
                    }
                    lemma_last_blocker_same(old_v, nv, k);
                }
            }
            assert forall|i: int| 0 <= i < nv.len() implies ((#[trigger] nv[i]) == bb || exists|j: int| 0 <= j < old_v.len() && old_v[j] == nv[i]) by {
                if i != p {
                    assert(old_v[i] == nv[i]);
                }
            }
        }
    } else {
        proof {
            assert forall|j: int| p <= j < old_v.len() implies lex_lt(bk, #[trigger] old_v[j].control@) by {
                lemma_lex_total(old_v[p as int].control@, bk);
                if j > p {
                    lemma_lex_transitive(bk, old_v[p as int].control@, old_v[j].control@);
                }
            }
        }
        v.insert(p, b);
        proof {
            let nv = v@;
            assert(nv == old_v.insert(p as int, bb));
            assert forall|i: int, j: int| 0 <= i < j < nv.len() implies lex_lt(#[trigger] nv[i].control@, #[trigger] nv[j].control@) by {
                if j < p {
                    assert(nv[i] == old_v[i] && nv[j] == old_v[j]);
                } else if j == p {
                    assert(nv[i] == old_v[i]);
                } else if i < p {
                    assert(nv[i] == old_v[i] && nv[j] == old_v[j - 1]);
                } else if i == p {
                    assert(nv[j] == old_v[j - 1]);
                } else {
                    assert(nv[i] == old_v[i - 1] && nv[j] == old_v[j - 1]);
                }
            }
            assert forall|k: Seq<char>| #[trigger] last_blocker(nv, k) == if k == bk {
                Some(facts_of(bb))
            } else {
                last_blocker(old_v, k)
            } by {
                if k == bk {
                    lemma_last_blocker_at(nv, p as int);
                } else {
                    assert forall|i: int| 0 <= i < old_v.len() && (#[trigger] old_v[i]).control@ == k implies holds_blocker(nv, old_v[i]) by {
                        if i < p {
                            assert(nv[i] == old_v[i]);
                        } else {
                            assert(nv[i + 1] == old_v[i]);
                        }
                    }
                    assert forall|j: int| 0 <= j < nv.len() && (#[trigger] nv[j]).control@ == k implies holds_blocker(old_v, nv[j]) by {
                        if j < p {
                            assert(nv[j] == old_v[j]);
                        } else if j > p {
                            assert(nv[j] == old_v[j - 1]);
                        }
                    }
                    lemma_last_blocker_same(old_v, nv, k);
                }
            }
            assert forall|i: int| 0 <= i < nv.len() implies ((#[trigger] nv[i]) == bb || exists|j: int| 0 <= j < old_v.len() && old_v[j] == nv[i]) by {
                if i < p {
                    assert(old_v[i] == nv[i]);
                } else if i > p {
                    assert(old_v[i - 1] == nv[i]);
                }
            }
        }
    }
}

proof fn lemma_last_entry_append(c: Seq<BlockerFacts>, d: Seq<BlockerFacts>, k: Seq<char>)
    requires
        d.len() <= 1,
    ensures
        last_entry(c + d, k) == if d.len() == 1 && d[0].0@ == k {
            Some(d[0])
        } else {
            last_entry(c, k)
        },
{
    if d.len() == 0 {
        assert(c + d =~= c);
    } else {
        assert((c + d).drop_last() =~= c);
    }
}

/// Records the optional blocker of one record.
fn keep(out: &mut Vec<DesignBlocker>, cand: Option<DesignBlocker>, Ghost(c): Ghost<Seq<BlockerFacts>>)
    requires
        keyed(old(out)@, c),
        cand matches Some(b) ==> b.paths@.len() == 0,
    ensures
        keyed(final(out)@, c + cand_facts(cand)),
{
    match cand {
        Some(b) => {
            let ghost bb = b;
            let ghost old_v = out@;
            upsert(out, b);
            proof {
                assert forall|k: Seq<char>| #[trigger] last_blocker(out@, k) == last_entry(c + cand_facts(Some(bb)), k) by {
                    lemma_last_entry_append(c, cand_facts(Some(bb)), k);
                }
                assert forall|i: int| 0 <= i < out@.len() implies (#[trigger] out@[i]).paths@.len() == 0 by {
                    if out@[i] != bb {
                        let j = choose|j: int| 0 <= j < old_v.len() && old_v[j] == out@[i];
                        assert(old_v[j].paths@.len() == 0);
                    }
                }
            }
        },
        None => {
            proof {
                assert(c + cand_facts(None) =~= c);
            }
        },
    }
}

fn make_blocker(control: &ControlId, evidence_state: EvidenceState, rule: &str, reason: &str, non_waivable: bool) -> (b: DesignBlocker)
    ensures
        facts_of(b) == (*control, evidence_state, rule@, reason@, non_waivable),
        b.paths@.len() == 0,
{
    DesignBlocker {
        control: control.clone(),
        evidence_state,
        rule: rule.to_owned(),
        reason: reason.to_owned(),
        non_waivable,
        paths: Vec::new(),
    }
}

fn revision_candidate(r: &DesignRevision) -> (c: Option<DesignBlocker>)
    ensures
        cand_facts(c) == revision_blocker()(*r),
        c matches Some(b) ==> b.paths@.len() == 0,
{
    if !r.evidence_state.satisfies_required_evidence() {
        Some(make_blocker(&r.control, r.evidence_state, "design-revision", "design revision evidence is not accepted", false))
    } else {
        None
    }
}

fn review_candidate(r: &DesignReview) -> (c: Option<DesignBlocker>)
    ensures
        cand_facts(c) == review_blocker()(*r),
        c matches Some(b) ==> b.paths@.len() == 0,
{
    if r.state != DesignReviewState::Accepted {
        Some(make_blocker(&r.control, r.evidence_state, "design-review", "design review is not accepted", false))
    } else {
        None
    }
}

fn rfi_candidate(r: &RfiRecord) -> (c: Option<DesignBlocker>)
    ensures
        cand_facts(c) == rfi_blocker()(*r),
        c matches Some(b) ==> b.paths@.len() == 0,
{
    if r.state != RfiState::Accepted {
        let reason = if r.state == RfiState::Answered {
            "RFI is answered but not accepted"
        } else {
            "RFI is not accepted"
        };
        Some(make_blocker(&r.control, r.evidence_state, "rfi", reason, false))
    } else {
        None
    }
}

fn release_candidate(r: &DesignRelease, purpose: DesignReleasePurpose) -> (c: Option<DesignBlocker>)
    ensures
        cand_facts(c) == release_blocker(purpose)(*r),
        c matches Some(b) ==> b.paths@.len() == 0,
{
    if r.purpose != purpose {
        Some(make_blocker(&r.control, r.evidence_state, "release-purpose", "release purpose does not satisfy the requested readiness purpose", false))
    } else if !r.evidence_state.satisfies_required_evidence() {
        Some(make_blocker(&r.control, r.evidence_state, "design-release", "release evidence is not accepted", false))
    } else {
        None
    }
}

fn permit_candidate(p: &PermitRecord, as_of_date: ProjectDate) -> (c: Option<DesignBlocker>)
    ensures
        cand_facts(c) == permit_blocker(as_of_date)(*p),
        c matches Some(b) ==> b.paths@.len() == 0,
{
    let mut state = p.evidence_state;
    if state.satisfies_required_evidence() && !p.validity.contains(as_of_date) {
        state = EvidenceState::Expired;
    }
    if p.state != PermitState::Granted || !state.satisfies_required_evidence() {
        let reason = if state == EvidenceState::Expired {
            "permit is expired"
        } else if p.state == PermitState::Hold {
            "authority permit is on hold"
        } else {
            "permit is not granted with accepted evidence"
        };
        Some(make_blocker(&p.control, state, "permit", reason, false))
    } else {
        None
    }
}

fn inspection_candidate(r: &InspectionRecord) -> (c: Option<DesignBlocker>)
    ensures
        cand_facts(c) == inspection_blocker()(*r),
        c matches Some(b) ==> b.paths@.len() == 0,
{
    if r.state != InspectionState::Passed || !r.evidence_state.satisfies_required_evidence() {
        let reason = if r.state == InspectionState::Hold {
            "authority inspection is on hold"
        } else {
            "inspection has not passed with accepted evidence"
        };
        Some(make_blocker(&r.control, r.evidence_state, "inspection", reason, false))
    } else {
        None
    }
}

fn obligation_candidate(r: &AuthorityObligation) -> (c: Option<DesignBlocker>)
    ensures
        cand_facts(c) == obligation_blocker()(*r),
        c matches Some(b) ==> b.paths@.len() == 0,
{
    if r.state != AuthorityObligationState::Satisfied || !r.evidence_state.satisfies_required_evidence() {
        let reason = if r.state == AuthorityObligationState::Hold {
            "authority obligation is on hold"
        } else {
            "authority obligation is not satisfied with accepted evidence"
        };
        Some(make_blocker(&r.control, r.evidence_state, "authority-obligation", reason, r.non_waivable))
    } else {
        None
    }
}

impl DesignControlSet {
    fn superseding_for(&self, d: &ControlId) -> (r: Option<ControlId>)
        ensures
            r == superseding_of(self.revisions@, d@),
    {
        let ghost revs = self.revisions@;
        let mut i: usize = self.revisions.len();
        proof {
            assert(revs.take(i as int) =~= revs);
        }
        while i > 0
            invariant
                revs == self.revisions@,
                i <= revs.len(),
                superseding_of(revs, d@) == superseding_of(revs.take(i as int), d@),
            decreases i,
        {
            let rev = &self.revisions[i - 1];
            proof {
                assert(revs.take(i as int).drop_last() =~= revs.take(i - 1));
            }
            if let Some(x) = &rev.supersedes {
                if x.same(d) {
                    return Some(rev.control.clone());
                }
            }
            i = i - 1;
        }
        None
    }

    /// Blockers raised by the set's records for `purpose` on `as_of_date`, one
    /// per control (the last raised), in control order; a stale release is refused.
    fn local_blockers(&self, purpose: DesignReleasePurpose, as_of_date: ProjectDate) -> (r: Result<Vec<DesignBlocker>, ConstructionProjectError>)
        ensures
            local_blockers_result(*self, purpose, as_of_date, r),
    {
        let mut out: Vec<DesignBlocker> = Vec::new();
        let ghost mut done: Seq<BlockerFacts> = Seq::empty();
        proof {
            assert forall|k: Seq<char>| #[trigger] last_blocker(out@, k) == last_entry(done, k) by {}
        }
        let mut i: usize = 0;
        while i < self.revisions.len()
            invariant
                i <= self.revisions@.len(),
                keyed(out@, done + concat_map(self.revisions@.take(i as int), revision_blocker())),
            decreases self.revisions.len() - i,
        {
            let rec = &self.revisions[i];
            let cand = revision_candidate(rec);
            keep(&mut out, cand, Ghost(done + concat_map(self.revisions@.take(i as int), revision_blocker())));
            proof {
                lemma_concat_map_push(self.revisions@, revision_blocker(), i as int);
                assert(done + concat_map(self.revisions@.take(i as int), revision_blocker()) + cand_facts(cand)
                    =~= done + concat_map(self.revisions@.take(i + 1), revision_blocker()));
            }
            i = i + 1;
        }
        proof {
            assert(self.revisions@.take(self.revisions@.len() as int) =~= self.revisions@);
            done = done + concat_map(self.revisions@, revision_blocker());
        }
        let mut i: usize = 0;
        while i < self.reviews.len()
            invariant
                i <= self.reviews@.len(),
                keyed(out@, done + concat_map(self.reviews@.take(i as int), review_blocker())),
            decreases self.reviews.len() - i,
        {
            let rec = &self.reviews[i];
            let cand = review_candidate(rec);
            keep(&mut out, cand, Ghost(done + concat_map(self.reviews@.take(i as int), review_blocker())));
            proof {
                lemma_concat_map_push(self.reviews@, review_blocker(), i as int);
                assert(done + concat_map(self.reviews@.take(i as int), review_blocker()) + cand_facts(cand)
                    =~= done + concat_map(self.reviews@.take(i + 1), review_blocker()));
            }
            i = i + 1;
        }
        proof {
            assert(self.reviews@.take(self.reviews@.len() as int) =~= self.reviews@);
            done = done + concat_map(self.reviews@, review_blocker());
        }
        let mut i: usize = 0;
        while i < self.rfis.len()
            invariant
                i <= self.rfis@.len(),
                keyed(out@, done + concat_map(self.rfis@.take(i as int), rfi_blocker())),
            decreases self.rfis.len() - i,
        {
            let rec = &self.rfis[i];
            let cand = rfi_candidate(rec);
            keep(&mut out, cand, Ghost(done + concat_map(self.rfis@.take(i as int), rfi_blocker())));
            proof {
                lemma_concat_map_push(self.rfis@, rfi_blocker(), i as int);
                assert(done + concat_map(self.rfis@.take(i as int), rfi_blocker()) + cand_facts(cand)
                    =~= done + concat_map(self.rfis@.take(i + 1), rfi_blocker()));
            }
            i = i + 1;
        }
        proof {
            assert(self.rfis@.take(self.rfis@.len() as int) =~= self.rfis@);
            done = done + concat_map(self.rfis@, rfi_blocker());
        }
        let mut i: usize = 0;
        while i < self.releases.len()
            invariant
                i <= self.releases@.len(),
                forall|j: int| 0 <= j < i ==> !#[trigger] stale_at(*self, purpose)(j),
                keyed(out@, done + concat_map(self.releases@.take(i as int), release_blocker(purpose))),
            decreases self.releases.len() - i,
        {
            let rec = &self.releases[i];
            let cand = release_candidate(rec, purpose);
            keep(&mut out, cand, Ghost(done + concat_map(self.releases@.take(i as int), release_blocker(purpose))));
            proof {
                lemma_concat_map_push(self.releases@, release_blocker(purpose), i as int);
                assert(done + concat_map(self.releases@.take(i as int), release_blocker(purpose)) + cand_facts(cand)
                    =~= done + concat_map(self.releases@.take(i + 1), release_blocker(purpose)));
            }
            if rec.purpose == purpose {
                if let Some(x) = self.superseding_for(&rec.design_revision) {
                    let revalidated = match &rec.revalidated_against {
                        Some(v) => v.same(&x),
                        None => false,
                    };
                    if !revalidated {
                        let e = ConstructionProjectError::StaleDesignRelease {
                            release: rec.control.clone(),
                            revision: rec.design_revision.clone(),
                            superseding: x,
                        };
                        proof {
                            let p = stale_at(*self, purpose);
                            assert(p(i as int));
                            lemma_first_where_all_false(p, i as int);
                            assert(first_where(p, i + 1) == Some(i as int));
                            lemma_first_where_stable(p, i + 1, self.releases@.len() as int);
                        }
                        return Err(e);
                    }
                }
            }
            proof {
                assert(!stale_at(*self, purpose)(i as int));
            }
            i = i + 1;
        }
        proof {
            assert(self.releases@.take(self.releases@.len() as int) =~= self.releases@);
            done = done + concat_map(self.releases@, release_blocker(purpose));
            lemma_first_where_all_false(stale_at(*self, purpose), self.releases@.len() as int);
        }
        let mut i: usize = 0;
        while i < self.permits.len()
            invariant
                i <= self.permits@.len(),
                stale_refusal(*self, purpose) is None,
                keyed(out@, done + concat_map(self.permits@.take(i as int), permit_blocker(as_of_date))),
            decreases self.permits.len() - i,
        {
            let rec = &self.permits[i];
            let cand = permit_candidate(rec, as_of_date);
            keep(&mut out, cand, Ghost(done + concat_map(self.permits@.take(i as int), permit_blocker(as_of_date))));
            proof {
                lemma_concat_map_push(self.permits@, permit_blocker(as_of_date), i as int);
                assert(done + concat_map(self.permits@.take(i as int), permit_blocker(as_of_date)) + cand_facts(cand)
                    =~= done + concat_map(self.permits@.take(i + 1), permit_blocker(as_of_date)));
            }
            i = i + 1;
        }
        proof {
            assert(self.permits@.take(self.permits@.len() as int) =~= self.permits@);
            done = done + concat_map(self.permits@, permit_blocker(as_of_date));
        }
        let mut i: usize = 0;
        while i < self.inspections.len()
            invariant
                i <= self.inspections@.len(),
                stale_refusal(*self, purpose) is None,
                keyed(out@, done + concat_map(self.inspections@.take(i as int), inspection_blocker())),
            decreases self.inspections.len() - i,
        {
            let rec = &self.inspections[i];
            let cand = inspection_candidate(rec);
            keep(&mut out, cand, Ghost(done + concat_map(self.inspections@.take(i as int), inspection_blocker())));
            proof {
                lemma_concat_map_push(self.inspections@, inspection_blocker(), i as int);
                assert(done + concat_map(self.inspections@.take(i as int), inspection_blocker()) + cand_facts(cand)
                    =~= done + concat_map(self.inspections@.take(i + 1), inspection_blocker()));
            }
            i = i + 1;
        }
        proof {
            assert(self.inspections@.take(self.inspections@.len() as int) =~= self.inspections@);
            done = done + concat_map(self.inspections@, inspection_blocker());
        }
        let mut i: usize = 0;
        while i < self.authority_obligations.len()
            invariant
                i <= self.authority_obligations@.len(),
                stale_refusal(*self, purpose) is None,
                keyed(out@, done + concat_map(self.authority_obligations@.take(i as int), obligation_blocker())),
            decreases self.authority_obligations.len() - i,
        {
            let rec = &self.authority_obligations[i];
            let cand = obligation_candidate(rec);
            keep(&mut out, cand, Ghost(done + concat_map(self.authority_obligations@.take(i as int), obligation_blocker())));
            proof {
                lemma_concat_map_push(self.authority_obligations@, obligation_blocker(), i as int);
                assert(done + concat_map(self.authority_obligations@.take(i as int), obligation_blocker()) + cand_facts(cand)
                    =~= done + concat_map(self.authority_obligations@.take(i + 1), obligation_blocker()));
            }
            i = i + 1;
        }
        proof {
            assert(self.authority_obligations@.take(self.authority_obligations@.len() as int) =~= self.authority_obligations@);
            done = done + concat_map(self.authority_obligations@, obligation_blocker());
        }
        Ok(out)
    }
}

/// `t` is among the affected ids.
pub open spec fn affects_target(affected: Seq<ControlId>, t: Seq<char>) -> bool {
    exists|i: int| 0 <= i < affected.len() && (#[trigger] affected[i])@ == t
}

/// Some revision supersedes the revision `c`.
pub open spec fn is_superseded(revs: Seq<DesignRevision>, c: Seq<char>) -> bool {
    exists|j: int| 0 <= j < revs.len() && ((#[trigger] revs[j]).supersedes matches Some(x) && x@ == c)
}

/// Revisions of `part` that affect `t` and that no revision of `all` supersedes, in order.
pub open spec fn current_from(all: Seq<DesignRevision>, part: Seq<DesignRevision>, t: Seq<char>) -> Seq<ControlId>
    decreases part.len(),
{
    if part.len() == 0 {
        Seq::empty()
    } else {
        current_from(all, part.drop_last(), t) + if affects_target(part.last().affected_control_ids@, t)
            && !is_superseded(all, part.last().control@) {
            seq![part.last().control]
        } else {
            Seq::empty()
        }
    }
}

/// Releases that affect `t`, in order.
pub open spec fn release_ids(rels: Seq<DesignRelease>, t: Seq<char>) -> Seq<ControlId>
    decreases rels.len(),
{
    if rels.len() == 0 {
        Seq::empty()
    } else {
        release_ids(rels.drop_last(), t) + if affects_target(rels.last().affected_control_ids@, t) {
            seq![rels.last().control]
        } else {
            Seq::empty()
        }
    }
}

/// Evidence state the analysis uses for control `k`: the state of its blocker, else accepted.
pub open spec fn blocker_state(cands: Seq<BlockerFacts>, k: Seq<char>) -> EvidenceState {
    match last_entry(cands, k) {
        Some(f) => f.1,
        None => EvidenceState::Accepted,
    }
}

/// `steps` walk readiness edges from `blocker` to `target` by a shortest walk,
/// each step entered by its least edge kind, carrying no fact sequence, no
/// exception, and the evidence state of its control's blocker (accepted when
/// it has none).
#[verifier::opaque]
pub open spec fn design_path(
    edges: Seq<ControlEdge>,
    cands: Seq<BlockerFacts>,
    blocker: Seq<char>,
    target: Seq<char>,
    st: Seq<ControlExplanationStep>,
) -> bool {
    &&& st.len() >= 2
    &&& st[0].control@ == blocker
    &&& st.last().control@ == target
    &&& st[0].edge_kind is None
    &&& forall|i: int| 0 < i < st.len() ==> linked(edges, EdgeScope::Readiness, true, (#[trigger] st[i - 1]).control@, st[i].control@)
        && (st[i].edge_kind matches Some(kd) && is_least_kind(edges, st[i - 1].control@, st[i].control@, kd))
    &&& forall|i: int| 0 <= i < st.len() ==> (#[trigger] st[i]).current_seq is None && st[i].exception is None
        && st[i].evidence_state == blocker_state(cands, st[i].control@)
    &&& forall|q: Seq<Seq<char>>| #[trigger] is_walk(edges, EdgeScope::Readiness, true, q) && q[0] == blocker
        && q.last() == target ==> st.len() <= q.len()
}

/// Control `k` has a blocker and is the target or reaches it over readiness edges.
pub open spec fn reported(cands: Seq<BlockerFacts>, edges: Seq<ControlEdge>, t: Seq<char>, k: Seq<char>) -> bool {
    last_entry(cands, k) is Some && (k == t || reaches(edges, EdgeScope::Readiness, k, t))
}

/// A reported blocker: the last one raised for its control, with an explanation
/// path to the target unless it is the target itself.
pub open spec fn blocker_report_holds(b: DesignBlocker, cands: Seq<BlockerFacts>, edges: Seq<ControlEdge>, t: Seq<char>) -> bool {
    &&& reported(cands, edges, t, b.control@)
    &&& last_entry(cands, b.control@) == Some(facts_of(b))
    &&& if b.control@ == t {
        b.paths@.len() == 0
    } else {
        b.paths@.len() == 1 && b.paths@[0].blocker@ == b.control@ && b.paths@[0].target@ == t
            && design_path(edges, cands, b.control@, t, b.paths@[0].steps@)
    }
}

/// `v` lists every reported blocker once, in control order.
pub open spec fn blockers_reported(v: Seq<DesignBlocker>, cands: Seq<BlockerFacts>, edges: Seq<ControlEdge>, t: Seq<char>) -> bool {
    &&& blockers_sorted(v)
    &&& forall|i: int| 0 <= i < v.len() ==> blocker_report_holds(#[trigger] v[i], cands, edges, t)
    &&& forall|k: Seq<char>| #[trigger] reported(cands, edges, t, k) ==> exists|i: int| 0 <= i < v.len() && (#[trigger] v[i]).control@ == k
}

/// A reported blocker that may not be waived.
pub open spec fn reported_non_waivable(cands: Seq<BlockerFacts>, edges: Seq<ControlEdge>, t: Seq<char>, k: Seq<char>) -> bool {
    reported(cands, edges, t, k) && (last_entry(cands, k) matches Some(f) && f.4)
}

/// What readiness answers once the graph is built, the revisions agree and no release is stale.
pub open spec fn readiness_tail(
    nodes: Seq<ControlNode>,
    edges: Seq<ControlEdge>,
    target: ControlId,
    purpose: DesignReleasePurpose,
    as_of: ProjectDate,
    cands: Seq<BlockerFacts>,
    current: Seq<ControlId>,
    releases: Seq<ControlId>,
    r: Result<DesignReadinessReport, ConstructionProjectError>,
) -> bool {
    let t = target@;
    if !readiness_acyclic(edges) {
        r matches Err(ConstructionProjectError::ControlGraphCycle { cycle }) && is_cycle_report(nodes, edges, cycle@)
    } else if !has_node(nodes, t) {
        r matches Err(ConstructionProjectError::ControlGraphMissingEndpoint { edge, endpoint_role, endpoint })
            && edge == "analysis-target" && endpoint_role == "target" && endpoint@ == t
    } else if purpose == DesignReleasePurpose::Production && exists|k: Seq<char>| #[trigger] reported_non_waivable(cands, edges, t, k) {
        r matches Err(ConstructionProjectError::NonWaivableProductionBlocker { target: tg, blocker })
            && tg == target && reported_non_waivable(cands, edges, t, blocker@)
            && forall|k: Seq<char>| #[trigger] reported_non_waivable(cands, edges, t, k) ==> !lex_lt(k, blocker@)
    } else {
        r matches Ok(rep) && rep.target == target && rep.required_purpose == purpose && rep.as_of_date == as_of
            && rep.current_revisions@ == current && rep.releases@ == releases
            && blockers_reported(rep.blockers@, cands, edges, t) && rep.ready == (rep.blockers@.len() == 0)
    }
}

/// Design readiness of `target`, in the order of its checks: the set is
/// validated, the target's graph is built, more than one current revision is
/// refused, a stale release is refused, the graph is analysed, and a
/// non-waivable blocker refuses production readiness.
pub open spec fn design_readiness_result(
    s: DesignControlSet,
    target: ControlId,
    purpose: DesignReleasePurpose,
    as_of: ProjectDate,
    r: Result<DesignReadinessReport, ConstructionProjectError>,
) -> bool {
    match design_set_fault(s) {
        Some(e) => r matches Err(x) && x == e,
        None => {
            let st = run_steps(design_steps(s, target));
            match st.2 {
                Some(op) => r matches Err(x) && step_refusal(st.0, st.1, op, x),
                None => {
                    let cur = current_from(s.revisions@, s.revisions@, target@);
                    if cur.len() > 1 {
                        r matches Err(ConstructionProjectError::ConflictingDesignRevisions { affected, revisions })
                            && affected == target && revisions@ == cur
                    } else {
                        match stale_refusal(s, purpose) {
                            Some(e) => r matches Err(x) && x == e,
                            None => readiness_tail(st.0, st.1, target, purpose, as_of, design_candidates(s, purpose, as_of),
                                cur, release_ids(s.releases@, target@), r),
                        }
                    }
                },
            }
        },
    }
}

fn affects_id(affected: &Vec<ControlId>, t: &ControlId) -> (b: bool)
    ensures
        b == affects_target(affected@, t@),
{
    let mut i: usize = 0;
    while i < affected.len()
        invariant
            i <= affected@.len(),
            forall|j: int| 0 <= j < i ==> (#[trigger] affected@[j])@ != t@,
        decreases affected.len() - i,
    {
        if affected[i].same(t) {
            return true;
        }
        i = i + 1;
    }
    false
}

fn blocker_index(v: &Vec<DesignBlocker>, c: &ControlId) -> (r: Option<usize>)
    ensures
        r matches Some(i) ==> i < v@.len() && v@[i as int].control@ == c@,
        r is None ==> forall|i: int| 0 <= i < v@.len() ==> (#[trigger] v@[i]).control@ != c@,
{
    let mut i: usize = 0;
    while i < v.len()
        invariant
            i <= v@.len(),
            forall|j: int| 0 <= j < i ==> (#[trigger] v@[j]).control@ != c@,
        decreases v.len() - i,
    {
        if v[i].control.same(c) {
            return Some(i);
        }
        i = i + 1;
    }
    None
}

fn id_index(v: &Vec<ControlId>, c: &ControlId) -> (r: Option<usize>)
    ensures
        r matches Some(i) ==> i < v@.len() && v@[i as int]@ == c@,
        r is None ==> forall|i: int| 0 <= i < v@.len() ==> (#[trigger] v@[i])@ != c@,
{
    let mut i: usize = 0;
    while i < v.len()
        invariant
            i <= v@.len(),
            forall|j: int| 0 <= j < i ==> (#[trigger] v@[j])@ != c@,
        decreases v.len() - i,
    {
        if v[i].same(c) {
            return Some(i);
        }
        i = i + 1;
    }
    None
}

proof fn lemma_keyed_entry(v: Seq<DesignBlocker>, cands: Seq<BlockerFacts>, k: Seq<char>)
    requires
        keyed(v, cands),
    ensures
        (exists|i: int| 0 <= i < v.len() && (#[trigger] v[i]).control@ == k) <==> last_entry(cands, k) is Some,
        forall|i: int| 0 <= i < v.len() && (#[trigger] v[i]).control@ == k ==> last_entry(cands, k) == Some(facts_of(v[i])),
        blocker_state(cands, k) == match last_blocker(v, k) {
            Some(f) => f.1,
            None => EvidenceState::Accepted,
        },
{
    assert(last_blocker(v, k) == last_entry(cands, k));
    assert forall|i: int| 0 <= i < v.len() && (#[trigger] v[i]).control@ == k implies last_entry(cands, k) == Some(facts_of(v[i])) by {
        lemma_last_blocker_at(v, i);
    }
    if !exists|i: int| 0 <= i < v.len() && (#[trigger] v[i]).control@ == k {
        lemma_last_blocker_absent(v, k);
    }
}

proof fn lemma_design_path<G, H>(
    edges: Seq<ControlEdge>,
    cands: Seq<BlockerFacts>,
    local: Seq<DesignBlocker>,
    ev: G,
    exc: H,
    path: ControlExplanationPath,
) where
    G: Fn(&ControlId) -> (Option<u64>, EvidenceState),
    H: Fn(&ControlId) -> Option<ControlId>,

    requires
        keyed(local, cands),
        explains(edges, ev, exc, path),
        forall|c: &ControlId, out: (Option<u64>, EvidenceState)| #[trigger] call_ensures(ev, (c,), out) ==> out == (
            None::<u64>,
            match last_blocker(local, c@) {
                Some(f) => f.1,
                None => EvidenceState::Accepted,
            },
        ),
        forall|c: &ControlId, x: Option<ControlId>| #[trigger] call_ensures(exc, (c,), x) ==> x is None,
    ensures
        design_path(edges, cands, path.blocker@, path.target@, path.steps@),
{
    reveal(design_path);
    let st = path.steps@;
    assert forall|i: int| 0 <= i < st.len() implies (#[trigger] st[i]).current_seq is None && st[i].exception is None
        && st[i].evidence_state == blocker_state(cands, st[i].control@) by {
        assert(call_ensures(ev, (&st[i].control,), (st[i].current_seq, st[i].evidence_state)));
        assert(call_ensures(exc, (&st[i].control,), st[i].exception));
        lemma_keyed_entry(local, cands, st[i].control@);
    }
}


fn first_non_waivable(v: &Vec<DesignBlocker>) -> (r: Option<usize>)
    ensures
        r matches Some(a) ==> a < v@.len() && v@[a as int].non_waivable && forall|x: int| 0 <= x < a ==> !(#[trigger] v@[x]).non_waivable,
        r is None ==> forall|x: int| 0 <= x < v@.len() ==> !(#[trigger] v@[x]).non_waivable,
{
    let mut a: usize = 0;
    while a < v.len()
        invariant
            a <= v@.len(),
            forall|x: int| 0 <= x < a ==> !(#[trigger] v@[x]).non_waivable,
        decreases v.len() - a,
    {
        if v[a].non_waivable {
            return Some(a);
        }
        a = a + 1;
    }
    None
}

/// The local blockers that are the target or reach it, in control order, each
/// that reaches it carrying the analysis path of its control.
#[verifier::rlimit(40)]
fn select_reported(
    local: &Vec<DesignBlocker>,
    target: &ControlId,
    bl: &Vec<ControlId>,
    paths: &Vec<ControlExplanationPath>,
    Ghost(cands): Ghost<Seq<BlockerFacts>>,
    Ghost(edges): Ghost<Seq<ControlEdge>>,
) -> (out: Vec<DesignBlocker>)
    requires
        keyed(local@, cands),
        paths@.len() == bl@.len(),
        forall|j: int| 0 <= j < bl@.len() ==> (#[trigger] paths@[j]).blocker@ == bl@[j]@ && paths@[j].target@ == target@
            && design_path(edges, cands, bl@[j]@, target@, paths@[j].steps@) && reaches(edges, EdgeScope::Readiness, bl@[j]@, target@),
        forall|k: Seq<char>| (exists|i: int| 0 <= i < local@.len() && (#[trigger] local@[i]).control@ == k)
            && #[trigger] reaches(edges, EdgeScope::Readiness, k, target@) ==> exists|j: int| 0 <= j < bl@.len() && (#[trigger] bl@[j])@ == k,
    ensures
        blockers_reported(out@, cands, edges, target@),
{
    let ghost t = target@;
    let mut out: Vec<DesignBlocker> = Vec::new();
    let ghost mut src: Seq<int> = Seq::empty();
    let mut i: usize = 0;
    while i < local.len()
        invariant
            keyed(local@, cands),
            t == target@,
            i <= local@.len(),
            paths@.len() == bl@.len(),
            forall|j: int| 0 <= j < bl@.len() ==> (#[trigger] paths@[j]).blocker@ == bl@[j]@ && paths@[j].target@ == target@
                && design_path(edges, cands, bl@[j]@, target@, paths@[j].steps@) && reaches(edges, EdgeScope::Readiness, bl@[j]@, target@),
            forall|k: Seq<char>| (exists|i: int| 0 <= i < local@.len() && (#[trigger] local@[i]).control@ == k)
                && #[trigger] reaches(edges, EdgeScope::Readiness, k, target@) ==> exists|j: int| 0 <= j < bl@.len() && (#[trigger] bl@[j])@ == k,
            src.len() == out@.len(),
            forall|a: int| 0 <= a < out@.len() ==> 0 <= #[trigger] src[a] < i && out@[a].control@ == local@[src[a]].control@,
            blockers_sorted(out@),
            forall|a: int| 0 <= a < out@.len() ==> blocker_report_holds(#[trigger] out@[a], cands, edges, t),
            forall|j: int| 0 <= j < i && reported(cands, edges, t, (#[trigger] local@[j]).control@) ==> src.contains(j),
        decreases local.len() - i,
    {
        let b = &local[i];
        let ghost k = b.control@;
        proof {
            lemma_keyed_entry(local@, cands, k);
            assert(last_entry(cands, k) == Some(facts_of(local@[i as int])));
        }
        let mut keep_it = false;
        let mut nb = make_blocker(&b.control, b.evidence_state, b.rule.as_str(), b.reason.as_str(), b.non_waivable);
        if b.control.same(target) {
            keep_it = true;
        } else {
            match id_index(bl, &b.control) {
                Some(j) => {
                    nb.paths.push(paths[j].clone());
                    keep_it = true;
                },
                None => {
                    proof {
                        if reaches(edges, EdgeScope::Readiness, k, t) {
                            assert(exists|i2: int| 0 <= i2 < local@.len() && (#[trigger] local@[i2]).control@ == k);
                        }
                    }
                },
            }
        }
        if keep_it {
            let ghost old_out = out@;
            let ghost old_src = src;
            proof {
                assert(blocker_report_holds(nb, cands, edges, t));
                assert forall|a: int| 0 <= a < old_out.len() implies lex_lt(#[trigger] old_out[a].control@, k) by {
                    assert(old_src[a] < i);
                }
            }
            out.push(nb);
            proof {
                src = old_src.push(i as int);
                assert forall|a: int| 0 <= a < out@.len() implies 0 <= #[trigger] src[a] < i + 1 && out@[a].control@ == local@[src[a]].control@ by {
                    if a < old_out.len() {
                        assert(out@[a] == old_out[a]);
                        assert(src[a] == old_src[a]);
                    }
                }
                assert forall|a: int| 0 <= a < out@.len() implies blocker_report_holds(#[trigger] out@[a], cands, edges, t) by {
                    if a < old_out.len() {
                        assert(out@[a] == old_out[a]);
                    }
                }
                assert forall|x: int, y: int| 0 <= x < y < out@.len() implies lex_lt(#[trigger] out@[x].control@, #[trigger] out@[y].control@) by {
                    assert(out@[x] == old_out[x] || x == old_out.len());
                    if y < old_out.len() {
                        assert(out@[x] == old_out[x] && out@[y] == old_out[y]);
                    } else {
                        assert(out@[x] == old_out[x]);
                    }
                }
                assert forall|j: int| 0 <= j < i + 1 && reported(cands, edges, t, (#[trigger] local@[j]).control@) implies src.contains(j) by {
                    if j < i {
                        let a = choose|a: int| 0 <= a < old_src.len() && old_src[a] == j;
                        assert(src[a] == j);
                    } else {
                        assert(src[old_src.len() as int] == j);
                    }
                }
            }
        } else {
            proof {
                assert(!reported(cands, edges, t, k));
            }
        }
        i = i + 1;
    }
    proof {
        assert forall|k: Seq<char>| #[trigger] reported(cands, edges, t, k) implies exists|a: int| 0 <= a < out@.len() && (#[trigger] out@[a]).control@ == k by {
            lemma_keyed_entry(local@, cands, k);
            let j = choose|j: int| 0 <= j < local@.len() && (#[trigger] local@[j]).control@ == k;
            assert(src.contains(j));
            let a = choose|a: int| 0 <= a < src.len() && src[a] == j;
            assert(out@[a].control@ == k);
        }
    }
    out
}

impl DesignControlSet {
    fn revision_superseded(&self, c: &ControlId) -> (b: bool)
        ensures
            b == is_superseded(self.revisions@, c@),
    {
        let mut i: usize = 0;
        while i < self.revisions.len()
            invariant
                i <= self.revisions@.len(),
                forall|j: int| 0 <= j < i ==> !((#[trigger] self.revisions@[j]).supersedes matches Some(x) && x@ == c@),
            decreases self.revisions.len() - i,
        {
            if let Some(x) = &self.revisions[i].supersedes {
                if x.same(c) {
                    return true;
                }
            }
            i = i + 1;
        }
        false
    }

    fn current_revisions_for(&self, t: &ControlId) -> (v: Vec<ControlId>)
        ensures
            v@ == current_from(self.revisions@, self.revisions@, t@),
    {
        let ghost revs = self.revisions@;
        let mut v: Vec<ControlId> = Vec::new();
        let mut i: usize = 0;
        while i < self.revisions.len()
            invariant
                revs == self.revisions@,
                i <= revs.len(),
                v@ == current_from(revs, revs.take(i as int), t@),
            decreases self.revisions.len() - i,
        {
            let rev = &self.revisions[i];
            proof {
                assert(revs.take(i + 1).drop_last() =~= revs.take(i as int));
            }
            if affects_id(&rev.affected_control_ids, t) && !self.revision_superseded(&rev.control) {
                v.push(rev.control.clone());
            }
            proof {
                assert(v@ =~= current_from(revs, revs.take(i + 1), t@));
            }
            i = i + 1;
        }
        proof {
            assert(revs.take(revs.len() as int) =~= revs);
        }
        v
    }

    fn release_ids_for(&self, t: &ControlId) -> (v: Vec<ControlId>)
        ensures
            v@ == release_ids(self.releases@, t@),
    {
        let ghost rels = self.releases@;
        let mut v: Vec<ControlId> = Vec::new();
        let mut i: usize = 0;
        while i < self.releases.len()
            invariant
                rels == self.releases@,
                i <= rels.len(),
                v@ == release_ids(rels.take(i as int), t@),
            decreases self.releases.len() - i,
        {
            let rel = &self.releases[i];
            proof {
                assert(rels.take(i + 1).drop_last() =~= rels.take(i as int));
            }
            if affects_id(&rel.affected_control_ids, t) {
                v.push(rel.control.clone());
            }
            proof {
                assert(v@ =~= release_ids(rels.take(i + 1), t@));
            }
            i = i + 1;
        }
        proof {
            assert(rels.take(rels.len() as int) =~= rels);
        }
        v
    }

    /// Derives design readiness for a package, task, or control through the
    /// design graph: local blockers that are the target or reach it, each with
    /// an explanation path, in control order; ready when none remains.
    pub fn readiness_for(&self, target: ControlId, required_purpose: DesignReleasePurpose, as_of_date: ProjectDate) -> (r: Result<DesignReadinessReport, ConstructionProjectError>)
        ensures
            design_readiness_result(*self, target, required_purpose, as_of_date, r),
    {
        match self.validate() {
            Err(e) => return Err(e),
            Ok(()) => {},
        }
        let graph = match self.graph_for_target(&target) {
            Err(e) => return Err(e),
            Ok(g) => g,
        };
        let current = self.current_revisions_for(&target);
        if current.len() > 1 {
            return Err(ConstructionProjectError::ConflictingDesignRevisions { affected: target, revisions: current });
        }
        let local = match self.local_blockers(required_purpose, as_of_date) {
            Err(e) => return Err(e),
            Ok(v) => v,
        };
        let releases = self.release_ids_for(&target);
        let ghost cands = design_candidates(*self, required_purpose, as_of_date);
        let ghost edges = graph.edges@;
        let ghost t = target@;
        proof {
            assert(forall|k: int| 0 <= k < graph.edges@.len() ==> has_node(graph.nodes@, (#[trigger] graph.edges@[k]).source@));
        }
        let lref = &local;
        let blocks = |c: &ControlId| -> (b: bool)
            ensures
                b == (exists|i: int| 0 <= i < lref@.len() && (#[trigger] lref@[i]).control@ == c@),
        {
            blocker_index(lref, c).is_some()
        };
        let evidence = |c: &ControlId| -> (out: (Option<u64>, EvidenceState))
            requires
                blockers_sorted(lref@),
            ensures
                out == (None::<u64>, match last_blocker(lref@, c@) {
                    Some(f) => f.1,
                    None => EvidenceState::Accepted,
                }),
        {
            match blocker_index(lref, c) {
                Some(i) => {
                    proof {
                        lemma_last_blocker_at(lref@, i as int);
                    }
                    (None, lref[i].evidence_state)
                },
                None => {
                    proof {
                        lemma_last_blocker_absent(lref@, c@);
                    }
                    (None, EvidenceState::Accepted)
                },
            }
        };
        let exception = |c: &ControlId| -> (x: Option<ControlId>)
            ensures
                x is None,
        {
            None
        };
        let analysis = match graph.analyze_target(&target, blocks, evidence, exception) {
            Err(e) => return Err(e),
            Ok(a) => a,
        };
        let bl = &analysis.transitive_blockers;
        let paths = &analysis.explanation_paths;
        proof {
            assert forall|j: int| 0 <= j < bl@.len() implies design_path(edges, cands, paths@[j].blocker@, t, (#[trigger] paths@[j]).steps@) by {
                lemma_design_path(edges, cands, local@, evidence, exception, paths@[j]);
            }
            assert forall|j: int| 0 <= j < bl@.len() implies (exists|i: int| 0 <= i < local@.len() && (#[trigger] local@[i]).control@ == (#[trigger] bl@[j])@) by {
                assert(call_ensures(blocks, (&bl@[j],), true));
            }
            assert forall|k: Seq<char>| (exists|i: int| 0 <= i < local@.len() && (#[trigger] local@[i]).control@ == k)
                && #[trigger] reaches(edges, EdgeScope::Readiness, k, t) implies exists|j: int| 0 <= j < bl@.len() && (#[trigger] bl@[j])@ == k by {
                if !(exists|j: int| 0 <= j < bl@.len() && (#[trigger] bl@[j])@ == k) {
                    assert(!id_set(bl@).contains(k));
                    let c = choose|c: ControlId| c@ == k && #[trigger] call_ensures(blocks, (&c,), false);
                }
            }
            lemma_acyclic_no_self_reach(edges, t);
        }
        let out = select_reported(&local, &target, bl, paths, Ghost(cands), Ghost(edges));
        if required_purpose == DesignReleasePurpose::Production {
            match first_non_waivable(&out) {
                Some(a) => {
                    let blocker = out[a].control.clone();
                    proof {
                        assert(blocker_report_holds(out@[a as int], cands, edges, t));
                        assert(reported_non_waivable(cands, edges, t, blocker@));
                        assert forall|k: Seq<char>| #[trigger] reported_non_waivable(cands, edges, t, k) implies !lex_lt(k, blocker@) by {
                            let x = choose|x: int| 0 <= x < out@.len() && (#[trigger] out@[x]).control@ == k;
                            assert(blocker_report_holds(out@[x], cands, edges, t));
                            if x < a {
                            } else if x == a {
                                lemma_lex_irreflexive(k);
                            } else {
                                lemma_lex_asymmetric(blocker@, k);
                            }
                        }
                    }
                    return Err(ConstructionProjectError::NonWaivableProductionBlocker { target, blocker });
                },
                None => {
                    proof {
                        assert forall|k: Seq<char>| !#[trigger] reported_non_waivable(cands, edges, t, k) by {
                            if reported_non_waivable(cands, edges, t, k) {
                                let x = choose|x: int| 0 <= x < out@.len() && (#[trigger] out@[x]).control@ == k;
                                assert(blocker_report_holds(out@[x], cands, edges, t));
                            }
                        }
                    }
                },
            }
        }
        let ready = out.len() == 0;
        Ok(DesignReadinessReport {
            target,
            required_purpose,
            as_of_date,
            ready,
            current_revisions: current,
            releases,
            blockers: out,
        })
    }
}

proof fn lemma_contains_concat<A>(a: Seq<A>, b: Seq<A>, y: A)
    ensures
        a.contains(y) ==> (a + b).contains(y),
        b.contains(y) ==> (a + b).contains(y),
{
    if a.contains(y) {
        let i = choose|i: int| 0 <= i < a.len() && a[i] == y;
        assert((a + b)[i] == y);
    }
    if b.contains(y) {
        let i = choose|i: int| 0 <= i < b.len() && b[i] == y;
        assert((a + b)[a.len() + i] == y);
    }
}

proof fn lemma_concat_map_contains<T, U>(s: Seq<T>, f: spec_fn(T) -> Seq<U>, i: int, y: U)
    requires
        0 <= i < s.len(),
        f(s[i]).contains(y),
    ensures
        concat_map(s, f).contains(y),
    decreases s.len(),
{
    if i < s.len() - 1 {
        assert(s.drop_last()[i] == s[i]);
        lemma_concat_map_contains(s.drop_last(), f, i, y);
    }
    lemma_contains_concat(concat_map(s.drop_last(), f), f(s.last()), y);
}

/// A graph built without a refused step holds every edge that a step adds.
proof fn lemma_run_keeps_edges(ops: Seq<GraphStep>, k: int)
    requires
        run_steps(ops).2 is None,
        0 <= k < ops.len(),
    ensures
        match ops[k] {
            GraphStep::Edge(a, b, kd) => has_edge(run_steps(ops).1, a@, b@, kd),
            _ => true,
        },
    decreases ops.len(),
{
    let pre = ops.drop_last();
    let st0 = run_steps(pre);
    let op = ops.last();
    assert(run_steps(ops) == graph_step(st0, op));
    let st = run_steps(ops);
    assert(st0.2 is None);
    assert(!step_refused(st0.0, st0.1, op));
    assert(st.1 == st0.1 || st.1 == st0.1.push(ControlEdge { source: op->Edge_0, target: op->Edge_1, kind: op->Edge_2 }));
    if k < ops.len() - 1 {
        assert(pre[k] == ops[k]);
        lemma_run_keeps_edges(pre, k);
        match ops[k] {
            GraphStep::Edge(a, b, kd) => {
                let w = choose|w: int| 0 <= w < st0.1.len() && edge_is(#[trigger] st0.1[w], a@, b@, kd);
                assert(st.1[w] == st0.1[w]);
            },
            _ => {},
        }
    } else {
        match op {
            GraphStep::Edge(a, b, kd) => {
                assert(edge_is(st.1[st0.1.len() as int], a@, b@, kd));
            },
            _ => {},
        }
    }
}

proof fn lemma_last_entry_found(s: Seq<BlockerFacts>, y: BlockerFacts)
    requires
        s.contains(y),
    ensures
        last_entry(s, y.0@) is Some,
    decreases s.len(),
{
    if s.last().0@ != y.0@ {
        let i = choose|i: int| 0 <= i < s.len() && s[i] == y;
        assert(i < s.len() - 1);
        assert(s.drop_last()[i] == y);
        lemma_last_entry_found(s.drop_last(), y);
    }
}

/// The prerequisite step from a record to each id it affects is among its steps.
proof fn lemma_record_steps_edge(c: ControlId, kind: ControlNodeKind, aff: Seq<ControlId>, m: int)
    requires
        0 <= m < aff.len(),
    ensures
        record_steps(c, kind, aff).contains(GraphStep::Edge(c, aff[m], ControlEdgeKind::Prerequisite)),
{
    let e = GraphStep::Edge(c, aff[m], ControlEdgeKind::Prerequisite);
    assert(affected_step(c)(aff[m])[1] == e);
    lemma_concat_map_contains(aff, affected_step(c), m, e);
    lemma_contains_concat(seq![GraphStep::Node(c, kind)], concat_map(aff, affected_step(c)), e);
}

proof fn lemma_design_steps_contain(s: DesignControlSet, target: ControlId, e: GraphStep)
    requires
        concat_map(s.revisions@, revision_steps()).contains(e) || concat_map(s.reviews@, review_steps()).contains(e) || concat_map(s.rfis@, rfi_steps()).contains(e) || concat_map(s.releases@, release_steps()).contains(e) || concat_map(s.permits@, permit_steps()).contains(e) || concat_map(s.inspections@, inspection_steps()).contains(e) || concat_map(s.authority_obligations@, obligation_steps()).contains(e),
    ensures
        design_steps(s, target).contains(e),
{
    lemma_contains_concat(seq![GraphStep::Node(target, ControlNodeKind::Package)], concat_map(s.revisions@, revision_steps()), e);
    lemma_contains_concat(seq![GraphStep::Node(target, ControlNodeKind::Package)] + concat_map(s.revisions@, revision_steps()), concat_map(s.reviews@, review_steps()), e);
    lemma_contains_concat(seq![GraphStep::Node(target, ControlNodeKind::Package)] + concat_map(s.revisions@, revision_steps()) + concat_map(s.reviews@, review_steps()), concat_map(s.rfis@, rfi_steps()), e);
    lemma_contains_concat(seq![GraphStep::Node(target, ControlNodeKind::Package)] + concat_map(s.revisions@, revision_steps()) + concat_map(s.reviews@, review_steps()) + concat_map(s.rfis@, rfi_steps()), concat_map(s.releases@, release_steps()), e);
    lemma_contains_concat(seq![GraphStep::Node(target, ControlNodeKind::Package)] + concat_map(s.revisions@, revision_steps()) + concat_map(s.reviews@, review_steps()) + concat_map(s.rfis@, rfi_steps()) + concat_map(s.releases@, release_steps()), concat_map(s.permits@, permit_steps()), e);
    lemma_contains_concat(seq![GraphStep::Node(target, ControlNodeKind::Package)] + concat_map(s.revisions@, revision_steps()) + concat_map(s.reviews@, review_steps()) + concat_map(s.rfis@, rfi_steps()) + concat_map(s.releases@, release_steps()) + concat_map(s.permits@, permit_steps()), concat_map(s.inspections@, inspection_steps()), e);
    lemma_contains_concat(seq![GraphStep::Node(target, ControlNodeKind::Package)] + concat_map(s.revisions@, revision_steps()) + concat_map(s.reviews@, review_steps()) + concat_map(s.rfis@, rfi_steps()) + concat_map(s.releases@, release_steps()) + concat_map(s.permits@, permit_steps()) + concat_map(s.inspections@, inspection_steps()), concat_map(s.authority_obligations@, obligation_steps()), e);
}

proof fn lemma_design_candidates_contain(s: DesignControlSet, purpose: DesignReleasePurpose, as_of: ProjectDate, y: BlockerFacts)
    requires
        concat_map(s.revisions@, revision_blocker()).contains(y) || concat_map(s.reviews@, review_blocker()).contains(y) || concat_map(s.rfis@, rfi_blocker()).contains(y) || concat_map(s.releases@, release_blocker(purpose)).contains(y) || concat_map(s.permits@, permit_blocker(as_of)).contains(y) || concat_map(s.inspections@, inspection_blocker()).contains(y) || concat_map(s.authority_obligations@, obligation_blocker()).contains(y),
    ensures
        design_candidates(s, purpose, as_of).contains(y),
{
    lemma_contains_concat(concat_map(s.revisions@, revision_blocker()), concat_map(s.reviews@, review_blocker()), y);
    lemma_contains_concat(concat_map(s.revisions@, revision_blocker()) + concat_map(s.reviews@, review_blocker()), concat_map(s.rfis@, rfi_blocker()), y);
    lemma_contains_concat(concat_map(s.revisions@, revision_blocker()) + concat_map(s.reviews@, review_blocker()) + concat_map(s.rfis@, rfi_blocker()), concat_map(s.releases@, release_blocker(purpose)), y);
    lemma_contains_concat(concat_map(s.revisions@, revision_blocker()) + concat_map(s.reviews@, review_blocker()) + concat_map(s.rfis@, rfi_blocker()) + concat_map(s.releases@, release_blocker(purpose)), concat_map(s.permits@, permit_blocker(as_of)), y);
    lemma_contains_concat(concat_map(s.revisions@, revision_blocker()) + concat_map(s.reviews@, review_blocker()) + concat_map(s.rfis@, rfi_blocker()) + concat_map(s.releases@, release_blocker(purpose)) + concat_map(s.permits@, permit_blocker(as_of)), concat_map(s.inspections@, inspection_blocker()), y);
    lemma_contains_concat(concat_map(s.revisions@, revision_blocker()) + concat_map(s.reviews@, review_blocker()) + concat_map(s.rfis@, rfi_blocker()) + concat_map(s.releases@, release_blocker(purpose)) + concat_map(s.permits@, permit_blocker(as_of)) + concat_map(s.inspections@, inspection_blocker()), concat_map(s.authority_obligations@, obligation_blocker()), y);
}

/// A record that raises a blocker and has a prerequisite step to the target is
/// listed among the blockers of a readiness report for the target.
proof fn lemma_reported_blocker(
    s: DesignControlSet,
    target: ControlId,
    purpose: DesignReleasePurpose,
    as_of: ProjectDate,
    rep: DesignReadinessReport,
    c: ControlId,
    a: ControlId,
)
    requires
        design_readiness_result(s, target, purpose, as_of, Ok(rep)),
        a@ == target@,
        design_steps(s, target).contains(GraphStep::Edge(c, a, ControlEdgeKind::Prerequisite)),
        last_entry(design_candidates(s, purpose, as_of), c@) is Some,
    ensures
        exists|j: int| 0 <= j < rep.blockers@.len() && (#[trigger] rep.blockers@[j]).control@ == c@,
        !rep.ready,
{
    let ops = design_steps(s, target);
    let e = GraphStep::Edge(c, a, ControlEdgeKind::Prerequisite);
    assert(design_set_fault(s) is None);
    let st = run_steps(ops);
    assert(st.2 is None);
    let k = choose|k: int| 0 <= k < ops.len() && ops[k] == e;
    lemma_run_keeps_edges(ops, k);
    let w = choose|w: int| 0 <= w < st.1.len() && edge_is(#[trigger] st.1[w], c@, a@, ControlEdgeKind::Prerequisite);
    assert(linked(st.1, EdgeScope::Readiness, true, c@, target@));
    let walk = seq![c@, target@];
    assert(is_walk(st.1, EdgeScope::Readiness, true, walk));
    assert(reaches(st.1, EdgeScope::Readiness, c@, target@));
    let cands = design_candidates(s, purpose, as_of);
    assert(reported(cands, st.1, target@, c@));
    assert(blockers_reported(rep.blockers@, cands, st.1, target@));
}

/// A design revision that affects the target and whose evidence is not accepted
/// blocks the target: a readiness report lists a blocker with its control and is not ready.
pub proof fn lemma_unaccepted_revision_blocks(
    s: DesignControlSet,
    target: ControlId,
    purpose: DesignReleasePurpose,
    as_of: ProjectDate,
    rep: DesignReadinessReport,
    i: int,
)
    requires
        design_readiness_result(s, target, purpose, as_of, Ok(rep)),
        0 <= i < s.revisions@.len(),
        s.revisions@[i].evidence_state != EvidenceState::Accepted,
        affects_target(s.revisions@[i].affected_control_ids@, target@),
    ensures
        exists|j: int| 0 <= j < rep.blockers@.len() && (#[trigger] rep.blockers@[j]).control@ == s.revisions@[i].control@,
        !rep.ready,
{
    let r = s.revisions@[i];
    let aff = r.affected_control_ids@;
    let m = choose|m: int| 0 <= m < aff.len() && (#[trigger] aff[m])@ == target@;
    let e = GraphStep::Edge(r.control, aff[m], ControlEdgeKind::Prerequisite);
    lemma_record_steps_edge(r.control, ControlNodeKind::DesignRevision, aff, m);
    lemma_contains_concat(record_steps(r.control, ControlNodeKind::DesignRevision, aff), revision_steps()(r).skip(record_steps(r.control, ControlNodeKind::DesignRevision, aff).len() as int), e);
    assert(revision_steps()(r) =~= record_steps(r.control, ControlNodeKind::DesignRevision, aff) + revision_steps()(r).skip(record_steps(r.control, ControlNodeKind::DesignRevision, aff).len() as int));
    lemma_concat_map_contains(s.revisions@, revision_steps(), i, e);
    lemma_design_steps_contain(s, target, e);
    let y = revision_blocker()(r)[0];
    assert(revision_blocker()(r).contains(y));
    lemma_concat_map_contains(s.revisions@, revision_blocker(), i, y);
    lemma_design_candidates_contain(s, purpose, as_of, y);
    lemma_last_entry_found(design_candidates(s, purpose, as_of), y);
    assert(y.0 == r.control);
    lemma_reported_blocker(s, target, purpose, as_of, rep, r.control, aff[m]);
}

/// A design review that affects the target and is not accepted blocks the
/// target: a readiness report lists a blocker with its control and is not ready.
pub proof fn lemma_unaccepted_review_blocks(
    s: DesignControlSet,
    target: ControlId,
    purpose: DesignReleasePurpose,
    as_of: ProjectDate,
    rep: DesignReadinessReport,
    i: int,
)
    requires
        design_readiness_result(s, target, purpose, as_of, Ok(rep)),
        0 <= i < s.reviews@.len(),
        s.reviews@[i].state != DesignReviewState::Accepted,
        affects_target(s.reviews@[i].affected_control_ids@, target@),
    ensures
        exists|j: int| 0 <= j < rep.blockers@.len() && (#[trigger] rep.blockers@[j]).control@ == s.reviews@[i].control@,
        !rep.ready,
{
    let r = s.reviews@[i];
    let aff = r.affected_control_ids@;
    let m = choose|m: int| 0 <= m < aff.len() && (#[trigger] aff[m])@ == target@;
    let e = GraphStep::Edge(r.control, aff[m], ControlEdgeKind::Prerequisite);
    lemma_record_steps_edge(r.control, ControlNodeKind::DesignReview, aff, m);
    lemma_contains_concat(record_steps(r.control, ControlNodeKind::DesignReview, aff), review_steps()(r).skip(record_steps(r.control, ControlNodeKind::DesignReview, aff).len() as int), e);
    assert(review_steps()(r) =~= record_steps(r.control, ControlNodeKind::DesignReview, aff) + review_steps()(r).skip(record_steps(r.control, ControlNodeKind::DesignReview, aff).len() as int));
    lemma_concat_map_contains(s.reviews@, review_steps(), i, e);
    lemma_design_steps_contain(s, target, e);
    let y = review_blocker()(r)[0];
    assert(review_blocker()(r).contains(y));
    lemma_concat_map_contains(s.reviews@, review_blocker(), i, y);
    lemma_design_candidates_contain(s, purpose, as_of, y);
    lemma_last_entry_found(design_candidates(s, purpose, as_of), y);
    assert(y.0 == r.control);
    lemma_reported_blocker(s, target, purpose, as_of, rep, r.control, aff[m]);
}

/// An RFI that affects the target and whose answer is not accepted blocks the
/// target: a readiness report lists a blocker with its control and is not ready.
pub proof fn lemma_unaccepted_rfi_blocks(
    s: DesignControlSet,
    target: ControlId,
    purpose: DesignReleasePurpose,
    as_of: ProjectDate,
    rep: DesignReadinessReport,
    i: int,
)
    requires
        design_readiness_result(s, target, purpose, as_of, Ok(rep)),
        0 <= i < s.rfis@.len(),
        s.rfis@[i].state != RfiState::Accepted,
        affects_target(s.rfis@[i].affected_control_ids@, target@),
    ensures
        exists|j: int| 0 <= j < rep.blockers@.len() && (#[trigger] rep.blockers@[j]).control@ == s.rfis@[i].control@,
        !rep.ready,
{
    let r = s.rfis@[i];
    let aff = r.affected_control_ids@;
    let m = choose|m: int| 0 <= m < aff.len() && (#[trigger] aff[m])@ == target@;
    let e = GraphStep::Edge(r.control, aff[m], ControlEdgeKind::Prerequisite);
    lemma_record_steps_edge(r.control, ControlNodeKind::Rfi, aff, m);
    lemma_contains_concat(record_steps(r.control, ControlNodeKind::Rfi, aff), rfi_steps()(r).skip(record_steps(r.control, ControlNodeKind::Rfi, aff).len() as int), e);
    assert(rfi_steps()(r) =~= record_steps(r.control, ControlNodeKind::Rfi, aff) + rfi_steps()(r).skip(record_steps(r.control, ControlNodeKind::Rfi, aff).len() as int));
    lemma_concat_map_contains(s.rfis@, rfi_steps(), i, e);
    lemma_design_steps_contain(s, target, e);
    let y = rfi_blocker()(r)[0];
    assert(rfi_blocker()(r).contains(y));
    lemma_concat_map_contains(s.rfis@, rfi_blocker(), i, y);
    lemma_design_candidates_contain(s, purpose, as_of, y);
    lemma_last_entry_found(design_candidates(s, purpose, as_of), y);
    assert(y.0 == r.control);
    lemma_reported_blocker(s, target, purpose, as_of, rep, r.control, aff[m]);
}

/// A release that affects the target and serves another purpose than the
/// requested one, or whose evidence is not accepted, blocks the target: a
/// readiness report lists a blocker with its control and is not ready.
pub proof fn lemma_unfit_release_blocks(
    s: DesignControlSet,
    target: ControlId,
    purpose: DesignReleasePurpose,
    as_of: ProjectDate,
    rep: DesignReadinessReport,
    i: int,
)
    requires
        design_readiness_result(s, target, purpose, as_of, Ok(rep)),
        0 <= i < s.releases@.len(),
        (s.releases@[i].purpose != purpose || s.releases@[i].evidence_state != EvidenceState::Accepted),
        affects_target(s.releases@[i].affected_control_ids@, target@),
    ensures
        exists|j: int| 0 <= j < rep.blockers@.len() && (#[trigger] rep.blockers@[j]).control@ == s.releases@[i].control@,
        !rep.ready,
{
    let r = s.releases@[i];
    let aff = r.affected_control_ids@;
    let m = choose|m: int| 0 <= m < aff.len() && (#[trigger] aff[m])@ == target@;
    let e = GraphStep::Edge(r.control, aff[m], ControlEdgeKind::Prerequisite);
    lemma_record_steps_edge(r.control, ControlNodeKind::DesignRelease, aff, m);
    lemma_contains_concat(record_steps(r.control, ControlNodeKind::DesignRelease, aff), release_steps()(r).skip(record_steps(r.control, ControlNodeKind::DesignRelease, aff).len() as int), e);
    assert(release_steps()(r) =~= record_steps(r.control, ControlNodeKind::DesignRelease, aff) + release_steps()(r).skip(record_steps(r.control, ControlNodeKind::DesignRelease, aff).len() as int));
    lemma_concat_map_contains(s.releases@, release_steps(), i, e);
    lemma_design_steps_contain(s, target, e);
    let y = release_blocker(purpose)(r)[0];
    assert(release_blocker(purpose)(r).contains(y));
    lemma_concat_map_contains(s.releases@, release_blocker(purpose), i, y);
    lemma_design_candidates_contain(s, purpose, as_of, y);
    lemma_last_entry_found(design_candidates(s, purpose, as_of), y);
    assert(y.0 == r.control);
    lemma_reported_blocker(s, target, purpose, as_of, rep, r.control, aff[m]);
}

/// A permit that affects the target and is not granted, lacks accepted evidence,
/// or is evaluated outside its validity window blocks the target: a readiness
/// report lists a blocker with its control and is not ready.
pub proof fn lemma_unusable_permit_blocks(
    s: DesignControlSet,
    target: ControlId,
    purpose: DesignReleasePurpose,
    as_of: ProjectDate,
    rep: DesignReadinessReport,
    i: int,
)
    requires
        design_readiness_result(s, target, purpose, as_of, Ok(rep)),
        0 <= i < s.permits@.len(),
        (s.permits@[i].state != PermitState::Granted || s.permits@[i].evidence_state != EvidenceState::Accepted
            || (s.permits@[i].validity.valid_from matches Some(f) && as_of.julian_day < f.julian_day)
            || (s.permits@[i].validity.valid_until matches Some(u) && u.julian_day < as_of.julian_day)),
        affects_target(s.permits@[i].affected_control_ids@, target@),
    ensures
        exists|j: int| 0 <= j < rep.blockers@.len() && (#[trigger] rep.blockers@[j]).control@ == s.permits@[i].control@,
        !rep.ready,
{
    let r = s.permits@[i];
    let aff = r.affected_control_ids@;
    let m = choose|m: int| 0 <= m < aff.len() && (#[trigger] aff[m])@ == target@;
    let e = GraphStep::Edge(r.control, aff[m], ControlEdgeKind::Prerequisite);
    lemma_record_steps_edge(r.control, ControlNodeKind::Permit, aff, m);
    lemma_contains_concat(record_steps(r.control, ControlNodeKind::Permit, aff), permit_steps()(r).skip(record_steps(r.control, ControlNodeKind::Permit, aff).len() as int), e);
    assert(permit_steps()(r) =~= record_steps(r.control, ControlNodeKind::Permit, aff) + permit_steps()(r).skip(record_steps(r.control, ControlNodeKind::Permit, aff).len() as int));
    lemma_concat_map_contains(s.permits@, permit_steps(), i, e);
    lemma_design_steps_contain(s, target, e);
    let y = permit_blocker(as_of)(r)[0];
    assert(permit_blocker(as_of)(r).contains(y));
    lemma_concat_map_contains(s.permits@, permit_blocker(as_of), i, y);
    lemma_design_candidates_contain(s, purpose, as_of, y);
    lemma_last_entry_found(design_candidates(s, purpose, as_of), y);
    assert(y.0 == r.control);
    lemma_reported_blocker(s, target, purpose, as_of, rep, r.control, aff[m]);
}

/// An inspection that affects the target and whose evidence is not accepted
/// blocks the target whatever the inspection's state, as does one that has not
/// passed: a readiness report lists a blocker with its control and is not ready.
pub proof fn lemma_unaccepted_inspection_blocks(
    s: DesignControlSet,
    target: ControlId,
    purpose: DesignReleasePurpose,
    as_of: ProjectDate,
    rep: DesignReadinessReport,
    i: int,
)
    requires
        design_readiness_result(s, target, purpose, as_of, Ok(rep)),
        0 <= i < s.inspections@.len(),
        (s.inspections@[i].state != InspectionState::Passed || s.inspections@[i].evidence_state != EvidenceState::Accepted),
        affects_target(s.inspections@[i].affected_control_ids@, target@),
    ensures
        exists|j: int| 0 <= j < rep.blockers@.len() && (#[trigger] rep.blockers@[j]).control@ == s.inspections@[i].control@,
        !rep.ready,
{
    let r = s.inspections@[i];
    let aff = r.affected_control_ids@;
    let m = choose|m: int| 0 <= m < aff.len() && (#[trigger] aff[m])@ == target@;
    let e = GraphStep::Edge(r.control, aff[m], ControlEdgeKind::Prerequisite);
    lemma_record_steps_edge(r.control, ControlNodeKind::Inspection, aff, m);
    lemma_contains_concat(record_steps(r.control, ControlNodeKind::Inspection, aff), inspection_steps()(r).skip(record_steps(r.control, ControlNodeKind::Inspection, aff).len() as int), e);
    assert(inspection_steps()(r) =~= record_steps(r.control, ControlNodeKind::Inspection, aff) + inspection_steps()(r).skip(record_steps(r.control, ControlNodeKind::Inspection, aff).len() as int));
    lemma_concat_map_contains(s.inspections@, inspection_steps(), i, e);
    lemma_design_steps_contain(s, target, e);
    let y = inspection_blocker()(r)[0];
    assert(inspection_blocker()(r).contains(y));
    lemma_concat_map_contains(s.inspections@, inspection_blocker(), i, y);
    lemma_design_candidates_contain(s, purpose, as_of, y);
    lemma_last_entry_found(design_candidates(s, purpose, as_of), y);
    assert(y.0 == r.control);
    lemma_reported_blocker(s, target, purpose, as_of, rep, r.control, aff[m]);
}

/// An authority obligation that affects the target and is not satisfied with
/// accepted evidence blocks the target: a readiness report lists a blocker
/// with its control and is not ready.
pub proof fn lemma_unsatisfied_obligation_blocks(
    s: DesignControlSet,
    target: ControlId,
    purpose: DesignReleasePurpose,
    as_of: ProjectDate,
    rep: DesignReadinessReport,
    i: int,
)
    requires
        design_readiness_result(s, target, purpose, as_of, Ok(rep)),
        0 <= i < s.authority_obligations@.len(),
        (s.authority_obligations@[i].state != AuthorityObligationState::Satisfied || s.authority_obligations@[i].evidence_state != EvidenceState::Accepted),
        affects_target(s.authority_obligations@[i].affected_control_ids@, target@),
    ensures
        exists|j: int| 0 <= j < rep.blockers@.len() && (#[trigger] rep.blockers@[j]).control@ == s.authority_obligations@[i].control@,
        !rep.ready,
{
    let r = s.authority_obligations@[i];
    let aff = r.affected_control_ids@;
    let m = choose|m: int| 0 <= m < aff.len() && (#[trigger] aff[m])@ == target@;
    let e = GraphStep::Edge(r.control, aff[m], ControlEdgeKind::Prerequisite);
    lemma_record_steps_edge(r.control, ControlNodeKind::AuthorityObligation, aff, m);
    lemma_contains_concat(record_steps(r.control, ControlNodeKind::AuthorityObligation, aff), obligation_steps()(r).skip(record_steps(r.control, ControlNodeKind::AuthorityObligation, aff).len() as int), e);
    assert(obligation_steps()(r) =~= record_steps(r.control, ControlNodeKind::AuthorityObligation, aff) + obligation_steps()(r).skip(record_steps(r.control, ControlNodeKind::AuthorityObligation, aff).len() as int));
    lemma_concat_map_contains(s.authority_obligations@, obligation_steps(), i, e);
    lemma_design_steps_contain(s, target, e);
    let y = obligation_blocker()(r)[0];
    assert(obligation_blocker()(r).contains(y));
    lemma_concat_map_contains(s.authority_obligations@, obligation_blocker(), i, y);
    lemma_design_candidates_contain(s, purpose, as_of, y);
    lemma_last_entry_found(design_candidates(s, purpose, as_of), y);
    assert(y.0 == r.control);
    lemma_reported_blocker(s, target, purpose, as_of, rep, r.control, aff[m]);
}

/// A production readiness report holds no blocker that may not be waived:
/// such a blocker refuses production readiness instead.
pub proof fn lemma_production_report_has_no_non_waivable_blocker(
    s: DesignControlSet,
    target: ControlId,
    as_of: ProjectDate,
    rep: DesignReadinessReport,
    j: int,
)
    requires
        design_readiness_result(s, target, DesignReleasePurpose::Production, as_of, Ok(rep)),
        0 <= j < rep.blockers@.len(),
    ensures
        !rep.blockers@[j].non_waivable,
{
    let st = run_steps(design_steps(s, target));
    let cands = design_candidates(s, DesignReleasePurpose::Production, as_of);
    assert(blocker_report_holds(rep.blockers@[j], cands, st.1, target@));
    if rep.blockers@[j].non_waivable {
        assert(reported_non_waivable(cands, st.1, target@, rep.blockers@[j].control@));
    }
}

proof fn lemma_last_entry_skip_unkeyed(a: Seq<BlockerFacts>, b: Seq<BlockerFacts>, c: Seq<char>)
    requires
        forall|j: int| 0 <= j < b.len() ==> (#[trigger] b[j]).0@ != c,
    ensures
        last_entry(a + b, c) == last_entry(a, c),
    decreases b.len(),
{
    if b.len() > 0 {
        assert((a + b).drop_last() =~= a + b.drop_last());
        assert((a + b).last() == b.last());
        assert(b[b.len() - 1].0@ != c);
        lemma_last_entry_skip_unkeyed(a, b.drop_last(), c);
    } else {
        assert(a + b =~= a);
    }
}

proof fn lemma_concat_unkeyed<T>(s: Seq<T>, f: spec_fn(T) -> Seq<BlockerFacts>, key: spec_fn(T) -> Seq<char>, c: Seq<char>)
    requires
        forall|x: T, j: int| 0 <= j < f(x).len() ==> (#[trigger] f(x)[j]).0@ == key(x),
        forall|i: int| 0 <= i < s.len() ==> key(#[trigger] s[i]) != c,
    ensures
        forall|j: int| 0 <= j < concat_map(s, f).len() ==> (#[trigger] concat_map(s, f)[j]).0@ != c,
    decreases s.len(),
{
    if s.len() > 0 {
        let d = s.drop_last();
        assert forall|i: int| 0 <= i < d.len() implies key(#[trigger] d[i]) != c by {
            assert(d[i] == s[i]);
        }
        lemma_concat_unkeyed(d, f, key, c);
        let a = concat_map(d, f);
        let b = f(s.last());
        assert(key(s[s.len() - 1]) != c);
        assert forall|j: int| 0 <= j < (a + b).len() implies (#[trigger] (a + b)[j]).0@ != c by {
            if j >= a.len() {
                assert((a + b)[j] == b[j - a.len()]);
            }
        }
    }
}

proof fn lemma_concat_split<T, U>(s: Seq<T>, f: spec_fn(T) -> Seq<U>, n: int)
    requires
        0 <= n <= s.len(),
    ensures
        concat_map(s, f) == concat_map(s.take(n), f) + concat_map(s.skip(n), f),
    decreases s.len(),
{
    if n == s.len() {
        assert(s.take(n) =~= s);
        assert(s.skip(n) =~= Seq::<T>::empty());
        assert(concat_map(s, f) + Seq::<U>::empty() =~= concat_map(s, f));
    } else {
        let d = s.drop_last();
        lemma_concat_split(d, f, n);
        assert(d.take(n) =~= s.take(n));
        assert(s.skip(n).drop_last() =~= d.skip(n));
        assert(s.skip(n).last() == s.last());
        assert(concat_map(s, f) =~= concat_map(s.take(n), f) + concat_map(s.skip(n), f));
    }
}

/// The keyed blocker of a record whose control no other record uses is the
/// blocker that record raises.
proof fn lemma_sole_record_entry<T>(
    pre: Seq<BlockerFacts>,
    s: Seq<T>,
    f: spec_fn(T) -> Seq<BlockerFacts>,
    key: spec_fn(T) -> Seq<char>,
    post: Seq<BlockerFacts>,
    i: int,
    y: BlockerFacts,
)
    requires
        0 <= i < s.len(),
        f(s[i]) == seq![y],
        forall|x: T, j: int| 0 <= j < f(x).len() ==> (#[trigger] f(x)[j]).0@ == key(x),
        forall|m: int| 0 <= m < s.len() && m != i ==> key(#[trigger] s[m]) != y.0@,
        forall|j: int| 0 <= j < post.len() ==> (#[trigger] post[j]).0@ != y.0@,
    ensures
        last_entry(pre + concat_map(s, f) + post, y.0@) == Some(y),
{
    let c = y.0@;
    lemma_concat_split(s, f, i + 1);
    let rest = s.skip(i + 1);
    assert forall|m: int| 0 <= m < rest.len() implies key(#[trigger] rest[m]) != c by {
        assert(rest[m] == s[i + 1 + m]);
    }
    lemma_concat_unkeyed(rest, f, key, c);
    assert(s.take(i + 1).drop_last() =~= s.take(i));
    assert(s.take(i + 1).last() == s[i]);
    let head = pre + concat_map(s.take(i), f) + seq![y];
    assert(pre + concat_map(s, f) =~= head + concat_map(rest, f));
    assert(head.last() == y);
    assert(last_entry(head, c) == Some(y));
    lemma_last_entry_skip_unkeyed(head, concat_map(rest, f), c);
    lemma_last_entry_skip_unkeyed(head + concat_map(rest, f), post, c);
    assert(pre + concat_map(s, f) + post =~= head + concat_map(rest, f) + post);
}

/// A blocking inspection whose control no other record uses is reported with
/// rule `inspection`, its own evidence state, and the reason that it is on
/// hold, or else that it has not passed with accepted evidence; it may be waived.
pub proof fn lemma_sole_inspection_blocker_states_its_reason(
    s: DesignControlSet,
    target: ControlId,
    purpose: DesignReleasePurpose,
    as_of: ProjectDate,
    rep: DesignReadinessReport,
    i: int,
    j: int,
)
    requires
        design_readiness_result(s, target, purpose, as_of, Ok(rep)),
        0 <= i < s.inspections@.len(),
        (s.inspections@[i].state != InspectionState::Passed || s.inspections@[i].evidence_state != EvidenceState::Accepted),
        forall|m: int| 0 <= m < s.revisions@.len() ==> (#[trigger] s.revisions@[m]).control@ != s.inspections@[i].control@,
        forall|m: int| 0 <= m < s.reviews@.len() ==> (#[trigger] s.reviews@[m]).control@ != s.inspections@[i].control@,
        forall|m: int| 0 <= m < s.rfis@.len() ==> (#[trigger] s.rfis@[m]).control@ != s.inspections@[i].control@,
        forall|m: int| 0 <= m < s.releases@.len() ==> (#[trigger] s.releases@[m]).control@ != s.inspections@[i].control@,
        forall|m: int| 0 <= m < s.permits@.len() ==> (#[trigger] s.permits@[m]).control@ != s.inspections@[i].control@,
        forall|m: int| 0 <= m < s.inspections@.len() && m != i ==> (#[trigger] s.inspections@[m]).control@ != s.inspections@[i].control@,
        forall|m: int| 0 <= m < s.authority_obligations@.len() ==> (#[trigger] s.authority_obligations@[m]).control@ != s.inspections@[i].control@,
        0 <= j < rep.blockers@.len(),
        rep.blockers@[j].control@ == s.inspections@[i].control@,
    ensures
        rep.blockers@[j].rule@ == "inspection"@,
        rep.blockers@[j].evidence_state == s.inspections@[i].evidence_state,
        rep.blockers@[j].reason@ == if s.inspections@[i].state == InspectionState::Hold {
            "authority inspection is on hold"@
        } else {
            "inspection has not passed with accepted evidence"@
        },
        !rep.blockers@[j].non_waivable,
{
    let r = s.inspections@[i];
    let c = r.control@;
    let y = inspection_blocker()(r)[0];
    assert(inspection_blocker()(r) == seq![y]);
    assert forall|x: InspectionRecord, k: int| 0 <= k < inspection_blocker()(x).len() implies (#[trigger] inspection_blocker()(x)[k]).0@ == x.control@ by {}
    assert forall|x: AuthorityObligation, j: int| 0 <= j < obligation_blocker()(x).len() implies (#[trigger] obligation_blocker()(x)[j]).0@ == x.control@ by {}
    lemma_concat_unkeyed(s.authority_obligations@, obligation_blocker(), |x: AuthorityObligation| x.control@, c);
    let pre = concat_map(s.revisions@, revision_blocker()) + concat_map(s.reviews@, review_blocker()) + concat_map(s.rfis@, rfi_blocker()) + concat_map(s.releases@, release_blocker(purpose)) + concat_map(s.permits@, permit_blocker(as_of));
    let post = concat_map(s.authority_obligations@, obligation_blocker());
    lemma_sole_record_entry(pre, s.inspections@, inspection_blocker(), |x: InspectionRecord| x.control@, post, i, y);
    assert(design_candidates(s, purpose, as_of) == pre + concat_map(s.inspections@, inspection_blocker()) + post);
    let st = run_steps(design_steps(s, target));
    assert(blocker_report_holds(rep.blockers@[j], design_candidates(s, purpose, as_of), st.1, target@));
}

/// A blocking permit whose control no other record uses is reported with rule
/// `permit`: expired when its accepted evidence is outside its validity window
/// (or already expired), else on hold, else not granted with accepted evidence;
/// it may be waived.
pub proof fn lemma_sole_permit_blocker_states_its_reason(
    s: DesignControlSet,
    target: ControlId,
    purpose: DesignReleasePurpose,
    as_of: ProjectDate,
    rep: DesignReadinessReport,
    i: int,
    j: int,
)
    requires
        design_readiness_result(s, target, purpose, as_of, Ok(rep)),
        0 <= i < s.permits@.len(),
        (s.permits@[i].state != PermitState::Granted || s.permits@[i].evidence_state != EvidenceState::Accepted
            || (s.permits@[i].validity.valid_from matches Some(f) && as_of.julian_day < f.julian_day)
            || (s.permits@[i].validity.valid_until matches Some(u) && u.julian_day < as_of.julian_day)),
        forall|m: int| 0 <= m < s.revisions@.len() ==> (#[trigger] s.revisions@[m]).control@ != s.permits@[i].control@,
        forall|m: int| 0 <= m < s.reviews@.len() ==> (#[trigger] s.reviews@[m]).control@ != s.permits@[i].control@,
        forall|m: int| 0 <= m < s.rfis@.len() ==> (#[trigger] s.rfis@[m]).control@ != s.permits@[i].control@,
        forall|m: int| 0 <= m < s.releases@.len() ==> (#[trigger] s.releases@[m]).control@ != s.permits@[i].control@,
        forall|m: int| 0 <= m < s.permits@.len() && m != i ==> (#[trigger] s.permits@[m]).control@ != s.permits@[i].control@,
        forall|m: int| 0 <= m < s.inspections@.len() ==> (#[trigger] s.inspections@[m]).control@ != s.permits@[i].control@,
        forall|m: int| 0 <= m < s.authority_obligations@.len() ==> (#[trigger] s.authority_obligations@[m]).control@ != s.permits@[i].control@,
        0 <= j < rep.blockers@.len(),
        rep.blockers@[j].control@ == s.permits@[i].control@,
    ensures
        rep.blockers@[j].rule@ == "permit"@,
        ({
            let outside = (s.permits@[i].validity.valid_from matches Some(f) && as_of.julian_day < f.julian_day)
                || (s.permits@[i].validity.valid_until matches Some(u) && u.julian_day < as_of.julian_day);
            let state = if s.permits@[i].evidence_state == EvidenceState::Accepted && outside {
                EvidenceState::Expired
            } else {
                s.permits@[i].evidence_state
            };
            &&& rep.blockers@[j].evidence_state == state
            &&& rep.blockers@[j].reason@ == if state == EvidenceState::Expired {
                "permit is expired"@
            } else if s.permits@[i].state == PermitState::Hold {
                "authority permit is on hold"@
            } else {
                "permit is not granted with accepted evidence"@
            }
        }),
        !rep.blockers@[j].non_waivable,
{
    let r = s.permits@[i];
    let c = r.control@;
    let y = permit_blocker(as_of)(r)[0];
    assert(permit_blocker(as_of)(r) == seq![y]);
    assert forall|x: PermitRecord, k: int| 0 <= k < permit_blocker(as_of)(x).len() implies (#[trigger] permit_blocker(as_of)(x)[k]).0@ == x.control@ by {}
    assert forall|x: InspectionRecord, j: int| 0 <= j < inspection_blocker()(x).len() implies (#[trigger] inspection_blocker()(x)[j]).0@ == x.control@ by {}
    lemma_concat_unkeyed(s.inspections@, inspection_blocker(), |x: InspectionRecord| x.control@, c);
    assert forall|x: AuthorityObligation, j: int| 0 <= j < obligation_blocker()(x).len() implies (#[trigger] obligation_blocker()(x)[j]).0@ == x.control@ by {}
    lemma_concat_unkeyed(s.authority_obligations@, obligation_blocker(), |x: AuthorityObligation| x.control@, c);
    assert forall|j: int| 0 <= j < (concat_map(s.inspections@, inspection_blocker()) + concat_map(s.authority_obligations@, obligation_blocker())).len() implies (#[trigger] (concat_map(s.inspections@, inspection_blocker()) + concat_map(s.authority_obligations@, obligation_blocker()))[j]).0@ != c by {
        if j >= concat_map(s.inspections@, inspection_blocker()).len() {
            assert((concat_map(s.inspections@, inspection_blocker()) + concat_map(s.authority_obligations@, obligation_blocker()))[j] == concat_map(s.authority_obligations@, obligation_blocker())[j - concat_map(s.inspections@, inspection_blocker()).len()]);
        }
    }
    let pre = concat_map(s.revisions@, revision_blocker()) + concat_map(s.reviews@, review_blocker()) + concat_map(s.rfis@, rfi_blocker()) + concat_map(s.releases@, release_blocker(purpose));
    let post = concat_map(s.inspections@, inspection_blocker()) + concat_map(s.authority_obligations@, obligation_blocker());
    lemma_sole_record_entry(pre, s.permits@, permit_blocker(as_of), |x: PermitRecord| x.control@, post, i, y);
    assert(design_candidates(s, purpose, as_of) == pre + concat_map(s.permits@, permit_blocker(as_of)) + post);
    let st = run_steps(design_steps(s, target));
    assert(blocker_report_holds(rep.blockers@[j], design_candidates(s, purpose, as_of), st.1, target@));
}

/// A blocking authority obligation whose control no other record uses is
/// reported with rule `authority-obligation`, its own evidence state, its own
/// waiver class, and the reason that it is on hold, or else that it is not
/// satisfied with accepted evidence.
pub proof fn lemma_sole_obligation_blocker_states_its_reason(
    s: DesignControlSet,
    target: ControlId,
    purpose: DesignReleasePurpose,
    as_of: ProjectDate,
    rep: DesignReadinessReport,
    i: int,
    j: int,
)
    requires
        design_readiness_result(s, target, purpose, as_of, Ok(rep)),
        0 <= i < s.authority_obligations@.len(),
        (s.authority_obligations@[i].state != AuthorityObligationState::Satisfied || s.authority_obligations@[i].evidence_state != EvidenceState::Accepted),
        forall|m: int| 0 <= m < s.revisions@.len() ==> (#[trigger] s.revisions@[m]).control@ != s.authority_obligations@[i].control@,
        forall|m: int| 0 <= m < s.reviews@.len() ==> (#[trigger] s.reviews@[m]).control@ != s.authority_obligations@[i].control@,
        forall|m: int| 0 <= m < s.rfis@.len() ==> (#[trigger] s.rfis@[m]).control@ != s.authority_obligations@[i].control@,
        forall|m: int| 0 <= m < s.releases@.len() ==> (#[trigger] s.releases@[m]).control@ != s.authority_obligations@[i].control@,
        forall|m: int| 0 <= m < s.permits@.len() ==> (#[trigger] s.permits@[m]).control@ != s.authority_obligations@[i].control@,
        forall|m: int| 0 <= m < s.inspections@.len() ==> (#[trigger] s.inspections@[m]).control@ != s.authority_obligations@[i].control@,
        forall|m: int| 0 <= m < s.authority_obligations@.len() && m != i ==> (#[trigger] s.authority_obligations@[m]).control@ != s.authority_obligations@[i].control@,
        0 <= j < rep.blockers@.len(),
        rep.blockers@[j].control@ == s.authority_obligations@[i].control@,
    ensures
        rep.blockers@[j].rule@ == "authority-obligation"@,
        rep.blockers@[j].evidence_state == s.authority_obligations@[i].evidence_state,
        rep.blockers@[j].reason@ == if s.authority_obligations@[i].state == AuthorityObligationState::Hold {
            "authority obligation is on hold"@
        } else {
            "authority obligation is not satisfied with accepted evidence"@
        },
        rep.blockers@[j].non_waivable == s.authority_obligations@[i].non_waivable,
{
    let r = s.authority_obligations@[i];
    let c = r.control@;
    let y = obligation_blocker()(r)[0];
    assert(obligation_blocker()(r) == seq![y]);
    assert forall|x: AuthorityObligation, k: int| 0 <= k < obligation_blocker()(x).len() implies (#[trigger] obligation_blocker()(x)[k]).0@ == x.control@ by {}
    let pre = concat_map(s.revisions@, revision_blocker()) + concat_map(s.reviews@, review_blocker()) + concat_map(s.rfis@, rfi_blocker()) + concat_map(s.releases@, release_blocker(purpose)) + concat_map(s.permits@, permit_blocker(as_of)) + concat_map(s.inspections@, inspection_blocker());
    let post = Seq::<BlockerFacts>::empty();
    lemma_sole_record_entry(pre, s.authority_obligations@, obligation_blocker(), |x: AuthorityObligation| x.control@, post, i, y);
    assert(design_candidates(s, purpose, as_of) == pre + concat_map(s.authority_obligations@, obligation_blocker()) + post);
    let st = run_steps(design_steps(s, target));
    assert(blocker_report_holds(rep.blockers@[j], design_candidates(s, purpose, as_of), st.1, target@));
}

} // verus!
