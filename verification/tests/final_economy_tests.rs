use sim_lib_construction_project::charter::CurrencyCode;
use sim_lib_construction_project::commercial::CommercialEvidenceSource;
use sim_lib_construction_project::final_economy::{
    FinalEconomyAmountFact, FinalEconomyBasis, FinalEconomyBlocker, FinalEconomyControl, FinalEconomyFactKind,
    FinalEconomyReconciliation, FinalEconomyTotal,
};
use sim_lib_construction_project::{ConstructionProjectError, ControlId, EvidenceState, ExternalRef, ProjectDate, ProjectId};

#[test]
fn complete_accepted_economy_is_ready_and_reconciled() {
    let report = core_control(120_000, 120_000).derive().unwrap();
    assert!(report.ready);
    assert!(report.ledger_reconciled);
    assert!(report.blockers.is_empty());
    assert!(report.unsettled_exposure.is_empty());
    assert_eq!(
        report.totals,
        vec![
            FinalEconomyTotal { kind: FinalEconomyFactKind::AcceptedContract, amount: 100_000 },
            FinalEconomyTotal { kind: FinalEconomyFactKind::CurrentForecast, amount: 110_000 },
            FinalEconomyTotal { kind: FinalEconomyFactKind::FinalPosition, amount: 120_000 },
            FinalEconomyTotal { kind: FinalEconomyFactKind::LedgerBalance, amount: 120_000 },
        ]
    );
    assert_eq!(report.total(FinalEconomyFactKind::FinalPosition), Some(120_000));
    assert_eq!(report.total(FinalEconomyFactKind::Claim), None);
    let ids: Vec<&str> = report.current_facts.iter().map(|f| f.id.as_str()).collect();
    assert_eq!(ids, vec!["fact.contract", "fact.final", "fact.forecast", "fact.ledger"]);
}

#[test]
fn ledger_mismatch_blocks_and_is_not_reconciled() {
    let report = core_control(120_000, 119_999).derive().unwrap();
    assert!(!report.ready);
    assert!(!report.ledger_reconciled);
    assert_eq!(
        report.blockers,
        vec![FinalEconomyBlocker::LedgerMismatch { final_position: 120_000, ledger_balance: 119_999 }]
    );
}

#[test]
fn blockers_come_in_category_then_id_order() {
    let control = control()
        .with_fact(fact("fact.final", FinalEconomyFactKind::FinalPosition, 5, 1))
        .with_fact(from_ledger(fact("fact.ledger", FinalEconomyFactKind::LedgerBalance, 5, 2)))
        .with_fact(fact("fact.retention", FinalEconomyFactKind::Retention, 7, 3))
        .with_fact(fact("fact.claim", FinalEconomyFactKind::Claim, 9, 4))
        .with_fact(
            fact("fact.settlement", FinalEconomyFactKind::CustomerSettlement, 9, 5)
                .settles(control_id("fact.claim"))
                .settles(control_id("fact.unknown")),
        )
        .with_fact(
            FinalEconomyAmountFact::new(
                project(),
                control_id("fact.forecast"),
                FinalEconomyFactKind::CurrentForecast,
                1,
                currency(),
                day(1),
                6,
                CommercialEvidenceSource::Document,
                reference("forecast"),
            ),
        );
    let report = control.derive().unwrap();
    assert!(!report.ready);
    assert_eq!(ids(&report.unsettled_exposure), vec!["fact.retention"]);
    assert_eq!(
        report.blockers,
        vec![
            FinalEconomyBlocker::MissingKind(FinalEconomyFactKind::AcceptedContract),
            FinalEconomyBlocker::EvidenceNotAccepted { fact: control_id("fact.forecast"), state: EvidenceState::Reported },
            FinalEconomyBlocker::UnsettledExposure(control_id("fact.retention")),
            FinalEconomyBlocker::UnknownSettlementTarget(control_id("fact.unknown")),
        ]
    );
}

#[test]
fn correction_replaces_the_prior_fact_and_conflicts_are_reported() {
    let corrected = core_control(120_000, 130_000).with_fact(
        fact("fact.final.v2", FinalEconomyFactKind::FinalPosition, 130_000, 9).supersedes(control_id("fact.final")),
    );
    let control = FinalEconomyControl::new(
        project(),
        currency(),
        FinalEconomyBasis::new(10, day(5), "closing cutoff"),
        FinalEconomyReconciliation::new(control_id("fact.final.v2"), control_id("fact.ledger"), "final against ledger"),
    );
    let mut rebuilt = control;
    for f in corrected.facts {
        rebuilt = rebuilt.with_fact(f);
    }
    let report = rebuilt.derive().unwrap();
    assert!(report.ready);
    assert_eq!(report.total(FinalEconomyFactKind::FinalPosition), Some(130_000));

    let conflicting = core_control(120_000, 120_000)
        .with_fact(fact("fact.forecast.other", FinalEconomyFactKind::CurrentForecast, 1, 9));
    let report = conflicting.derive().unwrap();
    assert_eq!(report.blockers, vec![FinalEconomyBlocker::ConflictingKind(FinalEconomyFactKind::CurrentForecast)]);
    assert_eq!(report.total(FinalEconomyFactKind::CurrentForecast), Some(110_001));
}

#[test]
fn invalid_facts_and_corrections_fail_closed() {
    let shape = FinalEconomyControl::new(
        project(),
        currency(),
        FinalEconomyBasis::new(0, day(5), "closing cutoff"),
        FinalEconomyReconciliation::new(control_id("fact.final"), control_id("fact.ledger"), "final against ledger"),
    );
    assert_eq!(
        shape.derive().unwrap_err(),
        ConstructionProjectError::InvalidSequence { field: "final_economy.basis", sequence: 0 }
    );
    let blank = FinalEconomyControl::new(
        project(),
        currency(),
        FinalEconomyBasis::new(10, day(5), "closing cutoff"),
        FinalEconomyReconciliation::new(control_id("fact.final"), control_id("fact.ledger"), "  "),
    );
    assert_eq!(
        blank.derive().unwrap_err(),
        ConstructionProjectError::EmptyField("final_economy.reconciliation.explanation")
    );

    let late = control().with_fact(fact("fact.late", FinalEconomyFactKind::Claim, 1, 11));
    assert_eq!(
        late.derive().unwrap_err(),
        ConstructionProjectError::InvalidSequence { field: "final_economy.fact", sequence: 11 }
    );
    let duplicate = control()
        .with_fact(fact("fact.claim", FinalEconomyFactKind::Claim, 1, 1))
        .with_fact(fact("fact.claim", FinalEconomyFactKind::Claim, 1, 2));
    assert_eq!(
        duplicate.derive().unwrap_err(),
        ConstructionProjectError::DuplicateId { kind: "final_economy_fact", id: "fact.claim".to_owned() }
    );
    let dangling = control()
        .with_fact(fact("fact.claim", FinalEconomyFactKind::Claim, 1, 2).supersedes(control_id("fact.none")));
    assert_eq!(dangling.derive().unwrap_err(), ConstructionProjectError::EmptyField("final_economy.supersedes"));
    let backwards = control()
        .with_fact(fact("fact.claim", FinalEconomyFactKind::Claim, 1, 3))
        .with_fact(fact("fact.claim.v2", FinalEconomyFactKind::Claim, 1, 2).supersedes(control_id("fact.claim")));
    assert_eq!(backwards.derive().unwrap_err(), ConstructionProjectError::EmptyField("final_economy.supersession"));
    let twice = control()
        .with_fact(fact("fact.claim", FinalEconomyFactKind::Claim, 1, 1))
        .with_fact(fact("fact.claim.v2", FinalEconomyFactKind::Claim, 1, 2).supersedes(control_id("fact.claim")))
        .with_fact(fact("fact.claim.v3", FinalEconomyFactKind::Claim, 1, 3).supersedes(control_id("fact.claim")));
    assert_eq!(
        twice.derive().unwrap_err(),
        ConstructionProjectError::DuplicateId { kind: "final_economy_supersession", id: "fact.claim".to_owned() }
    );
    let settles = control()
        .with_fact(fact("fact.claim", FinalEconomyFactKind::Claim, 1, 1).settles(control_id("fact.other")));
    assert_eq!(
        settles.derive().unwrap_err(),
        ConstructionProjectError::EmptyCollection("final_economy.non_settlement.settles")
    );
    let unversioned = control().with_fact(FinalEconomyAmountFact::new(
        project(),
        control_id("fact.claim"),
        FinalEconomyFactKind::Claim,
        1,
        currency(),
        day(1),
        1,
        CommercialEvidenceSource::Document,
        ExternalRef::new("docs", "claim", None, None),
    ));
    assert_eq!(unversioned.derive().unwrap_err(), ConstructionProjectError::EmptyField("final_economy.fact.reference"));
    let foreign = control().with_fact(FinalEconomyAmountFact::new(
        project(),
        control_id("fact.claim"),
        FinalEconomyFactKind::Claim,
        1,
        CurrencyCode::new("SEK").unwrap(),
        day(1),
        1,
        CommercialEvidenceSource::Document,
        reference("claim"),
    ));
    assert_eq!(
        foreign.derive().unwrap_err(),
        ConstructionProjectError::CurrencyMismatch {
            field: "final_economy.amount",
            expected: "EUR".to_owned(),
            actual: "SEK".to_owned(),
        }
    );
}

#[test]
fn kind_total_overflow_fails_closed() {
    let control = control()
        .with_fact(fact("fact.claim.a", FinalEconomyFactKind::Claim, i64::MAX, 1))
        .with_fact(fact("fact.claim.b", FinalEconomyFactKind::Claim, 1, 2));
    assert_eq!(
        control.derive().unwrap_err(),
        ConstructionProjectError::AmountOverflow { field: "final_economy.total" }
    );
}

#[test]
fn settlement_and_exposure_kinds_are_classified() {
    assert!(FinalEconomyFactKind::Guarantee.is_exposure());
    assert!(FinalEconomyFactKind::OpenChange.is_exposure());
    assert!(!FinalEconomyFactKind::LedgerBalance.is_exposure());
    assert!(FinalEconomyFactKind::SupplierSettlement.is_settlement());
    assert!(!FinalEconomyFactKind::Claim.is_settlement());
}

fn from_ledger(mut fact: FinalEconomyAmountFact) -> FinalEconomyAmountFact {
    fact.source = CommercialEvidenceSource::LedgerBalance;
    fact
}

fn core_control(final_position: i64, ledger: i64) -> FinalEconomyControl {
    control()
        .with_fact(fact("fact.contract", FinalEconomyFactKind::AcceptedContract, 100_000, 1))
        .with_fact(fact("fact.forecast", FinalEconomyFactKind::CurrentForecast, 110_000, 2))
        .with_fact(fact("fact.final", FinalEconomyFactKind::FinalPosition, final_position, 3))
        .with_fact(from_ledger(fact("fact.ledger", FinalEconomyFactKind::LedgerBalance, ledger, 4)))
}

fn control() -> FinalEconomyControl {
    FinalEconomyControl::new(
        project(),
        currency(),
        FinalEconomyBasis::new(10, day(5), "closing cutoff"),
        FinalEconomyReconciliation::new(control_id("fact.final"), control_id("fact.ledger"), "final against ledger"),
    )
}

fn fact(id: &str, kind: FinalEconomyFactKind, amount: i64, seq: u64) -> FinalEconomyAmountFact {
    FinalEconomyAmountFact::new(
        project(),
        control_id(id),
        kind,
        amount,
        currency(),
        day(1),
        seq,
        CommercialEvidenceSource::Document,
        reference(id),
    )
    .with_evidence_state(EvidenceState::Accepted)
}

fn reference(id: &str) -> ExternalRef {
    ExternalRef::new("ledger", id, Some("v1".to_owned()), None)
}

fn ids(values: &[ControlId]) -> Vec<&str> {
    values.iter().map(ControlId::as_str).collect()
}

fn project() -> ProjectId {
    ProjectId::new("project.alpha").unwrap()
}

fn control_id(id: &str) -> ControlId {
    ControlId::new(id).unwrap()
}

fn currency() -> CurrencyCode {
    CurrencyCode::new("EUR").unwrap()
}

fn day(offset: i32) -> ProjectDate {
    ProjectDate::from_julian_day(2_460_000 + offset)
}
