//! Field incidents and accountable escalation.

use vstd::prelude::*;
use crate::date::ProjectDate;
use crate::error::ConstructionProjectError;
use crate::evidence::ExternalRef;
use crate::field_item::{field_item_check, FieldItem, FieldItemKind, FieldLane, FieldSeverity};
use crate::identity::RoleId;
use crate::text::{is_blank, text_is_blank};

verus! {

/// Accountable escalation retained for a field incident.
#[derive(Debug, PartialEq, Eq)]
pub struct IncidentEscalation {
    /// Role receiving the escalation.
    pub escalated_to: RoleId,
    /// Date of escalation.
    pub escalated_on: ProjectDate,
    /// Concise reason for escalation.
    pub reason: String,
    /// Reference-only evidence for the escalation decision or response.
    pub evidence: Vec<ExternalRef>,
}

/// Production, safety, work-environment, quality, or environmental incident.
#[derive(Debug, PartialEq, Eq)]
pub struct ProjectIncident {
    /// Shared accountable field-control record.
    pub field_item: FieldItem,
    /// Date the incident occurred.
    pub occurred_on: ProjectDate,
    /// Accountable escalation, when raised.
    pub escalation: Option<IncidentEscalation>,
}

/// An incident needs escalation when it is imminent or critical, lies in
/// the safety or work-environment lane, or is non-waivable.
pub open spec fn needs_escalation(item: FieldItem) -> bool {
    ||| item.severity == FieldSeverity::Imminent
    ||| item.severity == FieldSeverity::Critical
    ||| item.lane == FieldLane::Safety
    ||| item.lane == FieldLane::WorkEnvironment
    ||| item.non_waivable
}

/// The common field-item checks pass.
pub open spec fn field_item_ok(item: FieldItem) -> bool {
    field_item_check(item, Ok(()))
}

/// What `ProjectIncident::validate` answers.
pub open spec fn incident_check(i: ProjectIncident, r: Result<(), ConstructionProjectError>) -> bool {
    if i.field_item.kind != FieldItemKind::Incident {
        r == Err::<(), ConstructionProjectError>(ConstructionProjectError::EmptyField("incident.incident_kind"))
    } else if !field_item_ok(i.field_item) {
        field_item_check(i.field_item, r)
    } else if needs_escalation(i.field_item) && i.escalation is None {
        r == Err::<(), ConstructionProjectError>(ConstructionProjectError::EmptyCollection("incident.escalation"))
    } else if i.escalation matches Some(e) && is_blank(e.reason@) {
        r == Err::<(), ConstructionProjectError>(ConstructionProjectError::EmptyField("incident.escalation.reason"))
    } else if i.escalation matches Some(e) && e.evidence@.len() == 0 {
        r == Err::<(), ConstructionProjectError>(ConstructionProjectError::EmptyCollection("incident.escalation.evidence"))
    } else {
        r is Ok
    }
}

impl ProjectIncident {
    /// Builds an incident.
    pub fn new(field_item: FieldItem, occurred_on: ProjectDate) -> (i: Self)
        ensures
            i == (ProjectIncident { field_item, occurred_on, escalation: None }),
    {
        ProjectIncident { field_item, occurred_on, escalation: None }
    }

    /// Adds accountable escalation evidence.
    pub fn with_escalation(self, escalation: IncidentEscalation) -> (i: Self)
        ensures
            i == (ProjectIncident { escalation: Some(escalation), ..self }),
    {
        let mut i = self;
        i.escalation = Some(escalation);
        i
    }

    /// Returns whether policy requires immediate incident escalation.
    pub fn requires_escalation(&self) -> (b: bool)
        ensures
            b == needs_escalation(self.field_item),
    {
        self.field_item.severity == FieldSeverity::Imminent || self.field_item.severity == FieldSeverity::Critical
            || self.field_item.lane == FieldLane::Safety || self.field_item.lane == FieldLane::WorkEnvironment
            || self.field_item.non_waivable
    }

    /// Validates incident kind, common controls, and mandatory escalation.
    pub fn validate(&self) -> (r: Result<(), ConstructionProjectError>)
        ensures
            incident_check(*self, r),
    {
        if self.field_item.kind != FieldItemKind::Incident {
            return Err(ConstructionProjectError::EmptyField("incident.incident_kind"));
        }
        self.field_item.validate()?;
        if self.requires_escalation() && self.escalation.is_none() {
            return Err(ConstructionProjectError::EmptyCollection("incident.escalation"));
        }
        match &self.escalation {
            Some(escalation) => {
                if text_is_blank(escalation.reason.as_str()) {
                    return Err(ConstructionProjectError::EmptyField("incident.escalation.reason"));
                }
                if escalation.evidence.len() == 0 {
                    return Err(ConstructionProjectError::EmptyCollection("incident.escalation.evidence"));
                }
            },
            None => {},
        }
        Ok(())
    }
}

} // verus!
