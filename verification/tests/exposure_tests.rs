use sim_lib_construction_project::charter::CurrencyCode;
use sim_lib_construction_project::commercial::CommercialAmount;
use sim_lib_construction_project::evidence::ExternalRef;
use sim_lib_construction_project::exposure::{amount_buckets, ExposureAnnotation};
use sim_lib_construction_project::forecast::{ForecastBasis, ForecastConsequence, ForecastConsequenceKind, ForecastValue};
use sim_lib_construction_project::uncertainty::{OpenRating, UncertaintyKind, UncertaintyRecord, UncertaintyResponse};
use sim_lib_construction_project::{BaselineId, ConstructionProjectError, ControlId, ProjectDate, ProjectId, RoleId};
use sim_lib_construction_project::baseline::{
    AcceptedBaseline, BaselineKind, ScheduleBaseline, ScheduleJoinKind, SchedulePlanRevision, ScheduleStatusReport, ScheduleTaskJoin,
    ScheduleTaskJoinSet,
};
use sim_lib_construction_project::control_graph::{ControlEdgeKind, ControlGraph, ControlNodeKind};
use sim_lib_construction_project::evidence::EvidenceState;
use sim_lib_construction_project::exposure::derive_exposure;
use sim_lib_construction_project::snapshot::{CurrentFact, ProjectSnapshot};
use sim_lib_construction_project::uncertainty::ResponseState;

fn project() -> ProjectId {
    ProjectId::new("reference-center").unwrap()
}

fn baseline_id() -> BaselineId {
    BaselineId::new("baseline.schedule").unwrap()
}

fn role() -> RoleId {
    RoleId::new("project-chief").unwrap()
}

fn control(value: &str) -> ControlId {
    ControlId::new(value).unwrap()
}

fn date(day: u8) -> ProjectDate {
    ProjectDate::from_calendar_date(2026, 7, day).unwrap()
}

fn evidence(id: &str) -> ExternalRef {
    ExternalRef::new("doc/synthetic", &format!("risk/reference-center/{id}"), Some("rev-a".to_owned()), None)
}

fn risk() -> UncertaintyRecord {
    let rating = OpenRating::qualitative("project/risk-matrix", "high", 1, date(20), "project review");
    UncertaintyRecord::risk(
        project(),
        control("risk.switchgear"),
        1,
        baseline_id(),
        control("scenario.accepted"),
        "single-source design",
        "switchgear approval is missed",
        "energization moves",
        role(),
        UncertaintyResponse::new("qualify an alternate", "submittal rejected", date(28), date(24), 5),
        rating.clone(),
        rating,
    )
}

fn amount_consequence(id: &str, fact_seq: u64, amount: i64, currency: &str) -> ForecastConsequence {
    ForecastConsequence::new(
        project(),
        control(id),
        control("risk.switchgear"),
        fact_seq,
        control("scenario.accepted"),
        ForecastConsequenceKind::Amount,
        ForecastValue::Amount(CommercialAmount { amount, currency: CurrencyCode::new(currency).unwrap() }),
        ForecastBasis::new(baseline_id(), "discipline estimate", fact_seq, date(u8::try_from(fact_seq).unwrap())),
    )
    .affects(control("package.electrical"))
    .with_evidence(evidence(id))
}

#[test]
fn buckets_count_leaf_amounts_once_per_kind_scenario_and_currency() {
    let parent = amount_consequence("forecast.amount-parent", 2, 10_000_000, "SEK").summarizes(control("forecast.amount-child"));
    let child = amount_consequence("forecast.amount-child", 3, 6_000_000, "SEK")
        .with_parent(control("forecast.amount-parent"))
        .correlated_with(control("correlation.switchgear-market"));
    let euro = amount_consequence("forecast.amount-eur", 4, 200_000, "EUR");
    let buckets = amount_buckets(&vec![risk()], &vec![child, euro, parent]).unwrap();

    assert_eq!(buckets.len(), 2);
    assert_eq!(buckets[0].currency.as_str(), "EUR");
    assert_eq!(buckets[0].total, 200_000);
    assert_eq!(buckets[0].kind, UncertaintyKind::Risk);
    let sek = &buckets[1];
    assert_eq!(sek.currency.as_str(), "SEK");
    assert_eq!(sek.total, 6_000_000);
    assert_eq!(sek.contributors.iter().map(ControlId::as_str).collect::<Vec<_>>(), vec!["forecast.amount-child"]);
    assert_eq!(sek.annotations.len(), 2);
    assert!(matches!(
        &sek.annotations[0],
        ExposureAnnotation::ParentSummaryExcluded { parent, children }
            if parent.as_str() == "forecast.amount-parent" && children.len() == 1
    ));
    assert!(matches!(
        &sek.annotations[1],
        ExposureAnnotation::Correlated { group, consequences }
            if group.as_str() == "correlation.switchgear-market" && consequences.len() == 1
    ));
}

#[test]
fn buckets_refuse_a_sum_past_the_amount_range() {
    let max = amount_consequence("forecast.max", 2, i64::MAX, "SEK");
    let plus_one = amount_consequence("forecast.plus-one", 3, 1, "SEK");
    let result = amount_buckets(&vec![risk()], &vec![max, plus_one]);
    assert!(matches!(result, Err(ConstructionProjectError::AmountOverflow { field: "forecast.exposure.total" })));
}

#[test]
fn buckets_sum_several_leaves_and_skip_non_amount_consequences() {
    let a = amount_consequence("forecast.a", 2, 150, "SEK");
    let b = amount_consequence("forecast.b", 3, 250, "SEK");
    let note = ForecastConsequence::new(
        project(),
        control("forecast.c"),
        control("risk.switchgear"),
        4,
        control("scenario.accepted"),
        ForecastConsequenceKind::Safety,
        ForecastValue::Qualitative("temporary energization overlap".to_owned()),
        ForecastBasis::new(baseline_id(), "discipline estimate", 4, date(4)),
    );
    let buckets = amount_buckets(&vec![risk()], &vec![a, b, note]).unwrap();
    assert_eq!(buckets.len(), 1);
    assert_eq!(buckets[0].total, 400);
    assert_eq!(buckets[0].contributors.len(), 2);
    assert!(buckets[0].annotations.is_empty());
}

fn snapshot_of(subjects: &[&str]) -> ProjectSnapshot {
    ProjectSnapshot {
        project: project(),
        through_seq: u64::try_from(subjects.len()).unwrap(),
        current: subjects
            .iter()
            .enumerate()
            .map(|(index, subject)| CurrentFact {
                control: control(subject),
                seq: u64::try_from(index + 1).unwrap(),
                evidence_state: EvidenceState::Reported,
            })
            .collect(),
        superseded: Vec::new(),
    }
}

fn accepted_baseline() -> AcceptedBaseline {
    AcceptedBaseline::new(baseline_id(), project(), control("baseline.schedule"), BaselineKind::Time, role(), 1, date(1))
        .with_evidence(evidence("baseline"))
}

fn joins_at(as_of_seq: u64) -> ScheduleTaskJoinSet {
    ScheduleTaskJoinSet {
        baseline: ScheduleBaseline {
            baseline: baseline_id(),
            plan: "plan".to_owned(),
            accepted_revision: "rev-a".to_owned(),
            accepted_seq: 1,
        },
        revision: SchedulePlanRevision { plan: "plan".to_owned(), revision: "rev-a".to_owned(), as_of_seq },
        joins: vec![ScheduleTaskJoin {
            control: control("package.electrical"),
            task_id: "energization".to_owned(),
            kind: ScheduleJoinKind::Package,
        }],
    }
}

fn schedule_at(as_of_seq: u64) -> ScheduleStatusReport {
    ScheduleStatusReport {
        baseline: baseline_id(),
        accepted_revision: "rev-a".to_owned(),
        as_of_seq,
        critical_tasks: vec!["energization".to_owned()],
    }
}

fn graph() -> ControlGraph {
    let mut graph = ControlGraph::new();
    graph.add_node(control("risk.switchgear"), ControlNodeKind::Risk).unwrap();
    graph.add_node(control("package.electrical"), ControlNodeKind::Package).unwrap();
    graph.add_edge(control("risk.switchgear"), control("package.electrical"), ControlEdgeKind::Affects).unwrap();
    graph
}

fn current_risk() -> UncertaintyRecord {
    let mut risk = risk();
    risk.response = UncertaintyResponse::new("qualify an alternate", "submittal rejected", date(28), date(24), 5)
        .with_authority(role())
        .with_state(ResponseState::InProgress);
    risk.affects(control("package.electrical")).with_evidence(evidence("risk"))
}

#[test]
fn exposure_uses_current_baseline_schedule_dependency_and_comparable_leaf_facts() {
    let snapshot = snapshot_of(&[
        "risk.switchgear",
        "forecast.amount-parent",
        "forecast.amount-child",
        "forecast.amount-eur",
        "forecast.safety",
    ]);
    let parent = amount_consequence("forecast.amount-parent", 2, 10_000_000, "SEK").summarizes(control("forecast.amount-child"));
    let child = amount_consequence("forecast.amount-child", 3, 6_000_000, "SEK")
        .with_parent(control("forecast.amount-parent"))
        .correlated_with(control("correlation.switchgear-market"));
    let euro = amount_consequence("forecast.amount-eur", 4, 200_000, "EUR");
    let safety = ForecastConsequence::new(
        project(),
        control("forecast.safety"),
        control("risk.switchgear"),
        5,
        control("scenario.accepted"),
        ForecastConsequenceKind::Safety,
        ForecastValue::Qualitative("temporary energization overlap".to_owned()),
        ForecastBasis::new(baseline_id(), "discipline estimate", 5, date(5)),
    )
    .affects(control("package.electrical"))
    .with_evidence(evidence("safety"));

    let report = derive_exposure(
        &snapshot,
        &vec![accepted_baseline()],
        &vec![current_risk()],
        &vec![parent, child, euro, safety],
        &joins_at(5),
        &schedule_at(5),
        &graph(),
    )
    .unwrap();

    assert_eq!(report.queue.len(), 1);
    assert!(report.queue[0].critical_path);
    assert_eq!(
        report.queue[0].affected_dependents.iter().map(ControlId::as_str).collect::<Vec<_>>(),
        vec!["package.electrical"]
    );
    assert_eq!(report.amount_buckets.len(), 2);
    let sek = report.amount_buckets.iter().find(|bucket| bucket.currency.as_str() == "SEK").unwrap();
    assert_eq!(sek.total, 6_000_000);
    assert_eq!(sek.contributors.iter().map(ControlId::as_str).collect::<Vec<_>>(), vec!["forecast.amount-child"]);
    assert!(sek.annotations.iter().any(|annotation| matches!(
        annotation,
        ExposureAnnotation::ParentSummaryExcluded { parent, .. } if parent.as_str() == "forecast.amount-parent"
    )));
    assert!(sek.annotations.iter().any(|annotation| matches!(
        annotation,
        ExposureAnnotation::Correlated { group, .. } if group.as_str() == "correlation.switchgear-market"
    )));
    let eur = report.amount_buckets.iter().find(|bucket| bucket.currency.as_str() == "EUR").unwrap();
    assert_eq!(eur.total, 200_000);
    assert_eq!(report.as_of_seq, 5);
    assert_eq!(
        report.queue[0].consequences.iter().map(ControlId::as_str).collect::<Vec<_>>(),
        vec!["forecast.amount-child", "forecast.amount-eur", "forecast.amount-parent", "forecast.safety"]
    );
}

#[test]
fn exposure_amount_overflow_fails_closed() {
    let snapshot = snapshot_of(&["risk.switchgear", "forecast.max", "forecast.plus-one"]);
    let max = amount_consequence("forecast.max", 2, i64::MAX, "SEK");
    let plus_one = amount_consequence("forecast.plus-one", 3, 1, "SEK");
    let result = derive_exposure(
        &snapshot,
        &vec![accepted_baseline()],
        &vec![current_risk()],
        &vec![max, plus_one],
        &joins_at(3),
        &schedule_at(3),
        &graph(),
    );
    assert!(matches!(result, Err(ConstructionProjectError::AmountOverflow { field: "forecast.exposure.total" })));
}

#[test]
fn exposure_refuses_a_schedule_read_at_another_sequence() {
    let snapshot = snapshot_of(&["risk.switchgear"]);
    let result = derive_exposure(
        &snapshot,
        &vec![accepted_baseline()],
        &vec![current_risk()],
        &Vec::new(),
        &joins_at(2),
        &schedule_at(2),
        &graph(),
    );
    assert!(matches!(
        result,
        Err(ConstructionProjectError::UncertaintyDerivation { reason: "schedule report and accepted join baseline do not match", .. })
    ));
}

#[test]
fn exposure_refuses_a_baseline_without_evidence_and_an_orphan_uncertainty() {
    let snapshot = snapshot_of(&["risk.switchgear"]);
    let bare = AcceptedBaseline::new(baseline_id(), project(), control("baseline.schedule"), BaselineKind::Time, role(), 1, date(1));
    let result = derive_exposure(&snapshot, &vec![bare], &vec![current_risk()], &Vec::new(), &joins_at(1), &schedule_at(1), &graph());
    assert!(matches!(result, Err(ConstructionProjectError::EmptyCollection("baseline.evidence"))));
    let empty = snapshot_of(&["package.electrical"]);
    let result = derive_exposure(&empty, &vec![accepted_baseline()], &vec![current_risk()], &Vec::new(), &joins_at(1), &schedule_at(1), &graph());
    assert!(matches!(result, Err(ConstructionProjectError::OrphanControlRef { as_of_seq: 1, .. })));
}

fn named_risk(id: &str, fact_seq: u64, rating_seq: u64) -> UncertaintyRecord {
    let rating = OpenRating::qualitative("project/risk-matrix", "medium", rating_seq, date(20), "project review");
    UncertaintyRecord::risk(
        project(),
        control(id),
        fact_seq,
        baseline_id(),
        control("scenario.accepted"),
        "current project condition",
        "uncertain event",
        "project consequence",
        role(),
        UncertaintyResponse::new("review response", "threshold crossed", date(28), date(24), 5),
        rating.clone(),
        rating,
    )
}

#[test]
fn exposure_queue_puts_critical_then_stale_items_first() {
    let snapshot = snapshot_of(&["risk.c", "risk.a", "risk.b", "forecast.b"]);
    let mut graph = ControlGraph::new();
    for (id, kind) in [("risk.a", ControlNodeKind::Risk), ("risk.b", ControlNodeKind::Risk), ("risk.c", ControlNodeKind::Risk)] {
        graph.add_node(control(id), kind).unwrap();
    }
    let consequence = amount_consequence("forecast.b", 4, 500, "SEK");
    let mut consequence = consequence;
    consequence.uncertainty = control("risk.b");
    let report = derive_exposure(
        &snapshot,
        &vec![accepted_baseline()],
        &vec![named_risk("risk.c", 1, 1), named_risk("risk.a", 2, 1), named_risk("risk.b", 3, 3)],
        &vec![consequence],
        &joins_at(4),
        &schedule_at(4),
        &graph,
    )
    .unwrap();
    assert_eq!(
        report.queue.iter().map(|item| (item.uncertainty.as_str(), item.critical_path, item.stale_rating)).collect::<Vec<_>>(),
        vec![("risk.b", true, false), ("risk.a", false, true), ("risk.c", false, false)]
    );
    assert_eq!(report.amount_buckets.len(), 1);
    assert_eq!(report.amount_buckets[0].total, 500);
}
