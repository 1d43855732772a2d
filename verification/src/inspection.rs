//! Production inspection and test points.

use vstd::prelude::*;
use crate::error::ConstructionProjectError;
use crate::evidence::EvidenceState;
use crate::field_item::{field_item_check, FieldItem, FieldItemKind, FieldItemState};
use crate::identity::RoleId;
use crate::incident::field_item_ok;

verus! {

/// Accountable result for an inspection or test point.
#[derive(Clone, Copy, Debug, PartialEq, Eq, Structural)]
pub enum InspectionResult {
    /// Point awaits inspection or testing.
    Pending,
    /// Point passed and carries accepted evidence.
    Passed,
    /// Point was rejected and remains a production blocker.
    Rejected,
}

/// Production inspection or test point.
#[derive(Debug, PartialEq, Eq)]
pub struct InspectionPoint {
    /// Shared accountable field-control record.
    pub field_item: FieldItem,
    /// Inspection or test result.
    pub result: InspectionResult,
    /// Role that accepted or rejected the result.
    pub decided_by: Option<RoleId>,
}

/// A point blocks production until it passed, is closed, and carries
/// accepted evidence.
pub open spec fn point_blocks(p: InspectionPoint) -> bool {
    p.result != InspectionResult::Passed || p.field_item.state != FieldItemState::Closed
        || p.field_item.evidence_state != EvidenceState::Accepted
}

/// What `InspectionPoint::validate` answers.
pub open spec fn inspection_check(p: InspectionPoint, r: Result<(), ConstructionProjectError>) -> bool {
    if p.field_item.kind != FieldItemKind::InspectionPoint && p.field_item.kind != FieldItemKind::TestPoint {
        r == Err::<(), ConstructionProjectError>(ConstructionProjectError::EmptyField("inspection.inspection_or_test_kind"))
    } else if !field_item_ok(p.field_item) {
        field_item_check(p.field_item, r)
    } else if p.result != InspectionResult::Pending && p.decided_by is None {
        r == Err::<(), ConstructionProjectError>(ConstructionProjectError::EmptyField("inspection.decided_by"))
    } else if p.result == InspectionResult::Passed && p.field_item.evidence_state != EvidenceState::Accepted {
        r == Err::<(), ConstructionProjectError>(ConstructionProjectError::EmptyCollection("inspection.accepted_evidence"))
    } else {
        r is Ok
    }
}

impl InspectionPoint {
    /// Builds a pending inspection or test point.
    pub fn new(field_item: FieldItem) -> (p: Self)
        ensures
            p == (InspectionPoint { field_item, result: InspectionResult::Pending, decided_by: None }),
    {
        InspectionPoint { field_item, result: InspectionResult::Pending, decided_by: None }
    }

    /// Sets an accountable inspection or test result.
    pub fn with_result(self, result: InspectionResult, decided_by: RoleId) -> (p: Self)
        ensures
            p == (InspectionPoint { result, decided_by: Some(decided_by), ..self }),
    {
        let mut p = self;
        p.result = result;
        p.decided_by = Some(decided_by);
        p
    }

    /// Returns whether the point blocks affected production controls.
    pub fn blocks_production(&self) -> (b: bool)
        ensures
            b == point_blocks(*self),
    {
        self.result != InspectionResult::Passed || self.field_item.state != FieldItemState::Closed
            || !self.field_item.evidence_state.satisfies_required_evidence()
    }

    /// Validates point kind and accepted-result evidence.
    pub fn validate(&self) -> (r: Result<(), ConstructionProjectError>)
        ensures
            inspection_check(*self, r),
    {
        if self.field_item.kind != FieldItemKind::InspectionPoint && self.field_item.kind != FieldItemKind::TestPoint {
            return Err(ConstructionProjectError::EmptyField("inspection.inspection_or_test_kind"));
        }
        self.field_item.validate()?;
        if self.result != InspectionResult::Pending && self.decided_by.is_none() {
            return Err(ConstructionProjectError::EmptyField("inspection.decided_by"));
        }
        if self.result == InspectionResult::Passed && !self.field_item.evidence_state.satisfies_required_evidence() {
            return Err(ConstructionProjectError::EmptyCollection("inspection.accepted_evidence"));
        }
        Ok(())
    }
}

} // verus!
