use sim_lib_construction_project::escalation::{attention_level, attention_rank, reason_rank, AttentionLevel, EscalationReason};
use sim_lib_construction_project::{ControlId, ProjectDate};

#[test]
fn attention_class_follows_the_strongest_reason() {
    assert_eq!(attention_level(&[]), AttentionLevel::Review);
    assert_eq!(attention_level(&[EscalationReason::StaleRating]), AttentionLevel::Review);
    assert_eq!(
        attention_level(&[EscalationReason::StaleRating, EscalationReason::MissingAuthority]),
        AttentionLevel::High
    );
    assert_eq!(
        attention_level(&[
            EscalationReason::OverdueResponse { due_on: ProjectDate::from_julian_day(2_460_000) },
            EscalationReason::CrossedTrigger { fact_seq: 4 },
        ]),
        AttentionLevel::Immediate
    );
    assert_eq!(
        attention_level(&[EscalationReason::ChangedConsequence {
            consequence: ControlId::new("consequence.delay").unwrap(),
        }]),
        AttentionLevel::High
    );
    assert_eq!(attention_level(&[EscalationReason::EventOccurred]), AttentionLevel::Immediate);
}

#[test]
fn ranks_order_attention_and_reasons() {
    assert_eq!(attention_rank(AttentionLevel::Immediate), 0);
    assert_eq!(attention_rank(AttentionLevel::High), 1);
    assert_eq!(attention_rank(AttentionLevel::Review), 2);
    assert_eq!(reason_rank(&EscalationReason::EventOccurred), 0);
    assert_eq!(reason_rank(&EscalationReason::CriticalPathConsequence), 2);
    assert_eq!(
        reason_rank(&EscalationReason::DecisionLeadTime {
            attention_on: ProjectDate::from_julian_day(2_460_000),
            decision_due_on: ProjectDate::from_julian_day(2_460_010),
        }),
        6
    );
    assert_eq!(reason_rank(&EscalationReason::StaleRating), 7);
}

use sim_lib_construction_project::escalation::derive_escalation_queue;
use sim_lib_construction_project::evidence::{EvidenceState, ExternalRef};
use sim_lib_construction_project::exposure::{ExposureQueueItem, ExposureReport};
use sim_lib_construction_project::forecast::{ForecastBasis, ForecastConsequence, ForecastConsequenceKind, ForecastValue};
use sim_lib_construction_project::snapshot::{CurrentFact, ProjectSnapshot, SupersededFacts};
use sim_lib_construction_project::uncertainty::{
    OpenRating, ResponseState, UncertaintyKind, UncertaintyRecord, UncertaintyResponse, UncertaintyState,
};
use sim_lib_construction_project::{BaselineId, ProjectId, RoleId, ConstructionProjectError};

fn esc_project() -> ProjectId {
    ProjectId::new("reference-center").unwrap()
}

fn esc_baseline() -> BaselineId {
    BaselineId::new("baseline.schedule").unwrap()
}

fn esc_role() -> RoleId {
    RoleId::new("project-chief").unwrap()
}

fn esc_control(value: &str) -> ControlId {
    ControlId::new(value).unwrap()
}

fn esc_date(day: u8) -> ProjectDate {
    ProjectDate::from_calendar_date(2026, 7, day).unwrap()
}

fn esc_evidence(id: &str) -> ExternalRef {
    ExternalRef::new("doc/synthetic", &format!("risk/reference-center/{id}"), Some("rev-a".to_owned()), None)
}

fn current(control: &str, seq: u64) -> CurrentFact {
    CurrentFact { control: esc_control(control), seq, evidence_state: EvidenceState::Reported }
}

fn risk() -> UncertaintyRecord {
    let rating = OpenRating::qualitative("project/risk-matrix", "high", 2, esc_date(22), "project review");
    UncertaintyRecord::risk(
        esc_project(),
        esc_control("risk.switchgear"),
        2,
        esc_baseline(),
        esc_control("scenario.accepted"),
        "single-source design",
        "switchgear approval is missed",
        "energization moves",
        esc_role(),
        UncertaintyResponse::new("qualify an alternate", "submittal rejected", esc_date(25), esc_date(24), 5)
            .trigger_crossed_at(2)
            .with_state(ResponseState::InProgress),
        rating.clone(),
        rating,
    )
    .affects(esc_control("package.electrical"))
    .with_evidence(esc_evidence("risk"))
    .with_state(UncertaintyState::Open)
}

fn queue_item(u: &UncertaintyRecord, consequences: Vec<ControlId>, critical_path: bool) -> ExposureQueueItem {
    ExposureQueueItem {
        uncertainty: u.control.clone(),
        kind: u.kind,
        state: u.state,
        baseline: u.baseline.clone(),
        stale_rating: false,
        consequences,
        affected_dependents: vec![esc_control("package.electrical")],
        critical_path,
    }
}

#[test]
fn escalation_rules_recommend_attention_without_making_a_decision() {
    let snapshot = ProjectSnapshot {
        project: esc_project(),
        through_seq: 3,
        current: vec![current("risk.switchgear", 2), current("forecast.switchgear", 3)],
        superseded: vec![SupersededFacts { control: esc_control("forecast.switchgear"), prior: vec![1] }],
    };
    let uncertainty = risk();
    let consequence = ForecastConsequence::new(
        esc_project(),
        esc_control("forecast.switchgear"),
        esc_control("risk.switchgear"),
        3,
        esc_control("scenario.accepted"),
        ForecastConsequenceKind::Safety,
        ForecastValue::Qualitative("temporary energization overlap".to_owned()),
        ForecastBasis::new(esc_baseline(), "discipline estimate", 3, esc_date(23)),
    )
    .affects(esc_control("package.electrical"))
    .with_evidence(esc_evidence("forecast"));
    let exposure = ExposureReport {
        as_of_seq: 3,
        schedule_baseline: esc_baseline(),
        queue: vec![queue_item(&uncertainty, vec![consequence.control.clone()], true)],
        amount_buckets: Vec::new(),
    };

    let queue = derive_escalation_queue(&snapshot, &exposure, &vec![uncertainty], &vec![consequence], esc_date(30)).unwrap();

    assert_eq!(queue.len(), 1);
    let recommendation = &queue[0];
    assert_eq!(recommendation.attention, AttentionLevel::Immediate);
    assert_eq!(recommendation.recommended_to, None);
    let rendered = format!("{:?}", recommendation.reasons);
    for reason in [
        "OverdueResponse",
        "CrossedTrigger",
        "ChangedConsequence",
        "MissingAuthority",
        "DecisionLeadTime",
        "CriticalPathConsequence",
    ] {
        assert!(rendered.contains(reason), "missing reason {reason}");
    }
    assert_eq!(recommendation.recommendation, "review current evidence and obtain an accountable decision");
    assert_eq!(
        recommendation.reasons.iter().map(reason_rank).collect::<Vec<_>>(),
        vec![1, 2, 3, 4, 5, 6]
    );
    assert_eq!(recommendation.attention_due_on, esc_date(24));
}

#[test]
fn opportunity_capture_stays_an_attention_fact_not_a_decision() {
    let mut opportunity = risk();
    opportunity.kind = UncertaintyKind::Opportunity;
    opportunity.state = UncertaintyState::OpportunityCaptured { fact_seq: 2 };
    opportunity.validate().unwrap();
}

fn ordered_risk(id: &str, fact_seq: u64, crossed: bool) -> UncertaintyRecord {
    let rating = OpenRating::qualitative(
        "project/risk-matrix",
        "medium",
        fact_seq,
        esc_date(u8::try_from(fact_seq).unwrap()),
        "project review",
    );
    let (due_on, decision_due_on) = if crossed { (esc_date(20), esc_date(19)) } else { (esc_date(5), esc_date(4)) };
    let mut response =
        UncertaintyResponse::new("review response", "threshold crossed", due_on, decision_due_on, 1).with_authority(esc_role());
    if crossed {
        response = response.trigger_crossed_at(fact_seq);
    }
    UncertaintyRecord::risk(
        esc_project(),
        esc_control(id),
        fact_seq,
        esc_baseline(),
        esc_control("scenario.accepted"),
        "current project condition",
        "uncertain event",
        "project consequence",
        esc_role(),
        response,
        rating.clone(),
        rating,
    )
    .affects(esc_control("package.electrical"))
    .with_evidence(esc_evidence(id))
}

#[test]
fn high_attention_queue_order_is_deterministic() {
    let snapshot = ProjectSnapshot {
        project: esc_project(),
        through_seq: 3,
        current: vec![current("risk.b", 1), current("risk.c", 2), current("risk.a", 3)],
        superseded: Vec::new(),
    };
    let b = ordered_risk("risk.b", 1, true);
    let c = ordered_risk("risk.c", 2, false);
    let a = ordered_risk("risk.a", 3, true);
    let exposure = ExposureReport {
        as_of_seq: 3,
        schedule_baseline: esc_baseline(),
        queue: vec![queue_item(&b, Vec::new(), false), queue_item(&c, Vec::new(), false), queue_item(&a, Vec::new(), false)],
        amount_buckets: Vec::new(),
    };

    let queue = derive_escalation_queue(&snapshot, &exposure, &vec![b, c, a], &Vec::new(), esc_date(10)).unwrap();

    assert_eq!(
        queue.iter().map(|item| (item.uncertainty.as_str(), item.attention)).collect::<Vec<_>>(),
        vec![("risk.a", AttentionLevel::Immediate), ("risk.b", AttentionLevel::Immediate), ("risk.c", AttentionLevel::High),]
    );
}

#[test]
fn escalation_refuses_a_report_from_another_sequence() {
    let snapshot = ProjectSnapshot { project: esc_project(), through_seq: 4, current: vec![current("risk.switchgear", 2)], superseded: Vec::new() };
    let uncertainty = risk();
    let exposure = ExposureReport {
        as_of_seq: 3,
        schedule_baseline: esc_baseline(),
        queue: vec![queue_item(&uncertainty, Vec::new(), false)],
        amount_buckets: Vec::new(),
    };
    let result = derive_escalation_queue(&snapshot, &exposure, &vec![uncertainty], &Vec::new(), esc_date(30));
    assert!(matches!(
        result,
        Err(ConstructionProjectError::UncertaintyDerivation { reason: "exposure report does not match the current snapshot", .. })
    ));
}

#[test]
fn escalation_refuses_an_uncertainty_missing_from_the_queue() {
    let snapshot = ProjectSnapshot { project: esc_project(), through_seq: 3, current: vec![current("risk.switchgear", 2)], superseded: Vec::new() };
    let exposure = ExposureReport { as_of_seq: 3, schedule_baseline: esc_baseline(), queue: Vec::new(), amount_buckets: Vec::new() };
    let result = derive_escalation_queue(&snapshot, &exposure, &vec![risk()], &Vec::new(), esc_date(30));
    assert!(matches!(
        result,
        Err(ConstructionProjectError::UncertaintyDerivation { reason: "current uncertainty is absent from the exposure queue", .. })
    ));
}

#[test]
fn escalation_refuses_a_stale_uncertainty_and_skips_a_closed_one() {
    let stale = ProjectSnapshot { project: esc_project(), through_seq: 3, current: vec![current("risk.switchgear", 3)], superseded: Vec::new() };
    let exposure = ExposureReport { as_of_seq: 3, schedule_baseline: esc_baseline(), queue: Vec::new(), amount_buckets: Vec::new() };
    let result = derive_escalation_queue(&stale, &exposure, &vec![risk()], &Vec::new(), esc_date(30));
    assert!(matches!(
        result,
        Err(ConstructionProjectError::UncertaintyDerivation { reason: "escalation input does not match the current project fact", .. })
    ));
    let snapshot = ProjectSnapshot { project: esc_project(), through_seq: 3, current: vec![current("risk.switchgear", 2)], superseded: Vec::new() };
    let closed = risk().with_state(UncertaintyState::Closed { fact_seq: 2 });
    let queue = derive_escalation_queue(&snapshot, &exposure, &vec![closed], &Vec::new(), esc_date(30)).unwrap();
    assert!(queue.is_empty());
}

#[test]
fn uncertainty_validation_refuses_a_state_of_the_other_kind() {
    let realized_opportunity = risk().with_state(UncertaintyState::OpportunityCaptured { fact_seq: 2 });
    assert!(matches!(
        realized_opportunity.validate(),
        Err(ConstructionProjectError::UncertaintyDerivation { reason: "uncertainty state does not agree with its kind", .. })
    ));
    assert!(risk().with_state(UncertaintyState::RiskRealized { fact_seq: 2 }).validate().is_ok());
    assert!(!risk().has_stale_rating());
}
