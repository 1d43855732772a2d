use sim_lib_construction_project::action::{validate_refs, ActionResolution, ActionState, ProjectAction};
use sim_lib_construction_project::award::{AcceptedBaseline, AwardDecision, AwardDecisionKind, BaselineKind};
use sim_lib_construction_project::bid::{validate_non_empty, validate_texts, BidDecision, BidDecisionKind};
use sim_lib_construction_project::charter::CurrencyCode;
use sim_lib_construction_project::commercial::CommercialAmount;
use sim_lib_construction_project::decision::{DecisionResolution, DecisionState, ProjectDecision};
use sim_lib_construction_project::forecast::{
    validate_hierarchy, validate_parent_child, ForecastBasis, ForecastConsequence, ForecastConsequenceKind, ForecastValue,
};
use sim_lib_construction_project::{
    BaselineId, ConstructionProjectError, ControlId, ExternalRef, ProjectDate, ProjectId, RoleId,
};

#[test]
fn bid_decision_needs_authority_basis_and_offer_evidence() {
    let complete = bid(BidDecisionKind::Bid, "role.director")
        .valid_until(day(30))
        .with_price_basis(evidence("price"))
        .with_schedule_basis(evidence("schedule"));
    assert_eq!(complete.validate(), Ok(()));
    let report = complete.offer_basis_report(day(30)).unwrap();
    assert!(!report.expired);
    assert!(report.has_price_basis && report.has_schedule_basis);
    assert_eq!(report.valid_until, Some(day(30)));
    assert!(complete.offer_basis_report(day(31)).unwrap().expired);

    assert_eq!(
        bid(BidDecisionKind::Bid, "role.sales").validate(),
        Err(ConstructionProjectError::DecisionAuthorityMismatch {
            decision: control("bid.hospital"),
            expected: role("role.director"),
            actual: role("role.sales"),
        })
    );
    assert_eq!(bid(BidDecisionKind::Bid, "role.director").validate(), Err(ConstructionProjectError::EmptyField("bid.valid_until")));
    assert_eq!(
        bid(BidDecisionKind::ConditionalBid, "role.director").valid_until(day(30)).validate(),
        Err(ConstructionProjectError::EmptyCollection("bid.price_basis"))
    );
    assert_eq!(
        bid(BidDecisionKind::Bid, "role.director").valid_until(day(30)).with_price_basis(evidence("price")).validate(),
        Err(ConstructionProjectError::EmptyCollection("bid.schedule_basis"))
    );
    assert_eq!(bid(BidDecisionKind::NoBid, "role.director").validate(), Ok(()));
    let no_risk = BidDecision::new(
        project(),
        control("bid.hospital"),
        control("intent.hospital"),
        role("role.director"),
        role("role.director"),
        BidDecisionKind::NoBid,
    )
    .with_capacity_view("site team available")
    .with_evidence(evidence("minutes"));
    assert_eq!(no_risk.validate(), Err(ConstructionProjectError::EmptyCollection("bid.risks")));
    assert_eq!(
        bid(BidDecisionKind::NoBid, "role.director").with_assumption(" ").validate(),
        Err(ConstructionProjectError::EmptyField("bid.assumptions"))
    );
    assert_eq!(
        bid(BidDecisionKind::NoBid, "role.director").with_opportunity("").validate(),
        Err(ConstructionProjectError::EmptyField("bid.opportunities"))
    );
}

#[test]
fn text_lists_reject_blank_entries_and_required_lists_reject_emptiness() {
    assert_eq!(validate_texts(&vec![], "field"), Ok(()));
    assert_eq!(validate_texts(&vec!["a".to_owned(), "\t".to_owned()], "field"), Err(ConstructionProjectError::EmptyField("field")));
    assert_eq!(validate_non_empty(&vec![], "field"), Err(ConstructionProjectError::EmptyCollection("field")));
    assert_eq!(validate_non_empty(&vec!["a".to_owned()], "field"), Ok(()));
}

#[test]
fn baseline_needs_a_sequence_and_evidence() {
    let baseline = AcceptedBaseline::new(
        BaselineId::new("baseline.contract").unwrap(),
        project(),
        control("control.baseline"),
        BaselineKind::Commercial,
        role("role.customer"),
        3,
        day(2),
    );
    assert_eq!(baseline.validate(), Err(ConstructionProjectError::EmptyCollection("baseline.evidence")));
    let evidenced = baseline.with_evidence(evidence("contract"));
    assert_eq!(evidenced.validate(), Ok(()));
    let unsequenced = AcceptedBaseline::new(
        BaselineId::new("baseline.contract").unwrap(),
        project(),
        control("control.baseline"),
        BaselineKind::Time,
        role("role.customer"),
        0,
        day(2),
    )
    .with_evidence(evidence("contract"));
    assert_eq!(
        unsequenced.validate(),
        Err(ConstructionProjectError::InvalidSequence { field: "baseline.accepted_seq", sequence: 0 })
    );
    let award = AwardDecision::new(
        control("award.ventilation"),
        control("package.ventilation"),
        AwardDecisionKind::Award,
        role("role.procurement"),
        day(4),
        "best value",
    )
    .selects(control("tender.b"))
    .with_evidence(evidence("award"));
    assert_eq!(award.selected_tender, Some(control("tender.b")));
    assert_eq!(award.evidence.len(), 1);
}

#[test]
fn actions_need_consequence_evidence_resolution_and_current_references() {
    let current = vec![control("rfi.7"), control("drawing.12")];
    let open = action().with_reference(control("rfi.7")).with_evidence(evidence("minutes"));
    assert_eq!(open.validate_against(&current, 9), Ok(()));
    let orphan = action().with_reference(control("rfi.7")).with_reference(control("rfi.8")).with_evidence(evidence("minutes"));
    assert_eq!(
        orphan.validate_against(&current, 9),
        Err(ConstructionProjectError::OrphanControlRef { control: control("rfi.8"), as_of_seq: 9 })
    );
    let closed = action().with_evidence(evidence("minutes")).with_state(ActionState::Closed);
    assert_eq!(
        closed.validate_against(&current, 9),
        Err(ConstructionProjectError::MissingResolutionFact { kind: "action", control: control("action.rfi") })
    );
    let resolved = action().with_evidence(evidence("minutes")).with_state(ActionState::Closed).with_resolution(
        ActionResolution { fact_seq: 0, resolved_by: role("role.designer"), summary: "answered".to_owned() },
    );
    assert_eq!(
        resolved.validate_against(&current, 9),
        Err(ConstructionProjectError::InvalidSequence { field: "action.resolution", sequence: 0 })
    );
    let blank = action().with_evidence(evidence("minutes")).with_resolution(ActionResolution {
        fact_seq: 4,
        resolved_by: role("role.designer"),
        summary: " ".to_owned(),
    });
    assert_eq!(blank.validate_against(&current, 9), Err(ConstructionProjectError::EmptyField("action.resolution.summary")));
    assert_eq!(action().validate_against(&current, 9), Err(ConstructionProjectError::EmptyCollection("action.evidence")));
    assert_eq!(validate_refs(&vec![control("drawing.12")], &current, 9), Ok(()));
}

#[test]
fn decisions_are_closed_only_by_their_authority() {
    let current = vec![control("rfi.7")];
    let resolved = |by: &str, outcome: &str| {
        decision().with_evidence(evidence("minutes")).with_state(DecisionState::Closed).with_resolution(DecisionResolution {
            fact_seq: 5,
            decided_by: role(by),
            outcome: outcome.to_owned(),
        })
    };
    assert_eq!(resolved("role.customer", "approved").validate_against(&current, 9), Ok(()));
    assert_eq!(
        resolved("role.contractor", "approved").validate_against(&current, 9),
        Err(ConstructionProjectError::DecisionAuthorityMismatch {
            decision: control("decision.finish"),
            expected: role("role.customer"),
            actual: role("role.contractor"),
        })
    );
    assert_eq!(
        resolved("role.customer", "").validate_against(&current, 9),
        Err(ConstructionProjectError::EmptyField("decision.resolution.outcome"))
    );
    assert_eq!(
        decision().with_evidence(evidence("minutes")).with_state(DecisionState::Closed).validate_against(&current, 9),
        Err(ConstructionProjectError::MissingResolutionFact { kind: "decision", control: control("decision.finish") })
    );
    let blank = ProjectDecision::new(
        project(),
        control("decision.finish"),
        role("role.architect"),
        day(5),
        role("role.customer"),
        role("role.sponsor"),
        "  ",
    );
    assert_eq!(blank.validate_against(&current, 9), Err(ConstructionProjectError::EmptyField("decision.consequence")));
}

#[test]
fn forecast_values_must_fit_their_consequence_lane() {
    let time = consequence(
        ForecastConsequenceKind::Time,
        ForecastValue::TimeInterval { start_on: day(3), finish_on: day(9) },
    );
    assert_eq!(time.validate(), Ok(()));
    let reversed = consequence(
        ForecastConsequenceKind::Time,
        ForecastValue::TimeInterval { start_on: day(9), finish_on: day(3) },
    );
    assert_eq!(
        reversed.validate(),
        Err(ConstructionProjectError::ForecastValueMismatch {
            consequence: control("consequence.delay"),
            kind: ForecastConsequenceKind::Time,
        })
    );
    let amount = |minor: i64| {
        consequence(
            ForecastConsequenceKind::Amount,
            ForecastValue::Amount(CommercialAmount { amount: minor, currency: CurrencyCode::new("EUR").unwrap() }),
        )
    };
    assert_eq!(amount(150_00).validate(), Ok(()));
    assert!(amount(0).validate().is_err());
    assert_eq!(
        consequence(ForecastConsequenceKind::Safety, ForecastValue::Qualitative("crane lift near school".to_owned())).validate(),
        Ok(())
    );
    assert_eq!(
        consequence(ForecastConsequenceKind::Environment, ForecastValue::Quantified { value: 12, unit: "t CO2e".to_owned() })
            .validate(),
        Ok(())
    );
    assert!(consequence(ForecastConsequenceKind::Amount, ForecastValue::Qualitative("costly".to_owned())).validate().is_err());

    let early_basis = ForecastConsequence::new(
        project(),
        control("consequence.delay"),
        control("uncertainty.supply"),
        4,
        control("scenario.base"),
        ForecastConsequenceKind::Time,
        ForecastValue::TimeInterval { start_on: day(3), finish_on: day(9) },
        ForecastBasis::new(BaselineId::new("baseline.time").unwrap(), "three-point", 5, day(1)),
    )
    .affects(control("activity.steel"))
    .with_evidence(evidence("forecast"));
    assert_eq!(
        early_basis.validate(),
        Err(ConstructionProjectError::InvalidSequence { field: "forecast.basis.as_of_seq", sequence: 5 })
    );
    let both = time_with_links().with_parent(control("consequence.parent")).summarizes(control("consequence.child"));
    assert_eq!(
        both.validate(),
        Err(ConstructionProjectError::UncertaintyDerivation {
            control: control("consequence.delay"),
            reason: "a forecast consequence cannot be both parent and child",
        })
    );
    let unaffected = ForecastConsequence::new(
        project(),
        control("consequence.delay"),
        control("uncertainty.supply"),
        4,
        control("scenario.base"),
        ForecastConsequenceKind::Time,
        ForecastValue::TimeInterval { start_on: day(3), finish_on: day(9) },
        ForecastBasis::new(BaselineId::new("baseline.time").unwrap(), "three-point", 2, day(1)),
    );
    assert_eq!(unaffected.validate(), Err(ConstructionProjectError::EmptyCollection("forecast.affected_control_ids")));
}

#[test]
fn forecast_hierarchy_links_must_be_reciprocal_present_and_comparable() {
    let parent = amount_node("consequence.total", 300_00, "EUR")
        .summarizes(control("consequence.steel"))
        .summarizes(control("consequence.crane"));
    let steel = amount_node("consequence.steel", 200_00, "EUR").with_parent(control("consequence.total"));
    let crane = amount_node("consequence.crane", 100_00, "EUR").with_parent(control("consequence.total"));
    assert_eq!(validate_parent_child(&parent, &steel), Ok(()));
    assert_eq!(validate_hierarchy(&vec![crane, steel, parent]), Ok(()));

    let orphan = amount_node("consequence.steel", 200_00, "EUR").with_parent(control("consequence.total"));
    assert_eq!(
        validate_hierarchy(&vec![orphan]),
        Err(ConstructionProjectError::UncertaintyDerivation {
            control: control("consequence.steel"),
            reason: "forecast consequence references a non-current parent",
        })
    );

    let lonely_parent = amount_node("consequence.total", 300_00, "EUR").summarizes(control("consequence.steel"));
    let stray = amount_node("consequence.steel", 200_00, "EUR");
    assert_eq!(
        validate_hierarchy(&vec![stray, lonely_parent]),
        Err(ConstructionProjectError::UncertaintyDerivation {
            control: control("consequence.total"),
            reason: "forecast summary and child links are not reciprocal",
        })
    );

    let one_way_parent = amount_node("consequence.total", 300_00, "EUR");
    let claiming_child = amount_node("consequence.steel", 200_00, "EUR").with_parent(control("consequence.total"));
    assert_eq!(
        validate_hierarchy(&vec![claiming_child, one_way_parent]),
        Err(ConstructionProjectError::UncertaintyDerivation {
            control: control("consequence.steel"),
            reason: "forecast parent and child links are not reciprocal",
        })
    );

    let missing_child = amount_node("consequence.total", 300_00, "EUR").summarizes(control("consequence.gone"));
    assert_eq!(
        validate_hierarchy(&vec![missing_child]),
        Err(ConstructionProjectError::UncertaintyDerivation {
            control: control("consequence.total"),
            reason: "forecast summary references a non-current child",
        })
    );

    let sek_parent = amount_node("consequence.total", 300_00, "SEK").summarizes(control("consequence.steel"));
    let eur_child = amount_node("consequence.steel", 200_00, "EUR").with_parent(control("consequence.total"));
    assert_eq!(
        validate_hierarchy(&vec![sek_parent, eur_child]),
        Err(ConstructionProjectError::UncertaintyDerivation {
            control: control("consequence.steel"),
            reason: "forecast parent and child are not comparable",
        })
    );
    let qualitative_child = consequence(ForecastConsequenceKind::Safety, ForecastValue::Qualitative("risk".to_owned()));
    assert!(validate_parent_child(&amount_node("consequence.total", 1, "EUR"), &qualitative_child).is_err());
}

fn amount_node(id: &str, minor: i64, currency: &str) -> ForecastConsequence {
    ForecastConsequence::new(
        project(),
        control(id),
        control("uncertainty.supply"),
        4,
        control("scenario.base"),
        ForecastConsequenceKind::Amount,
        ForecastValue::Amount(CommercialAmount { amount: minor, currency: CurrencyCode::new(currency).unwrap() }),
        ForecastBasis::new(BaselineId::new("baseline.time").unwrap(), "three-point", 2, day(1)),
    )
    .affects(control("activity.steel"))
    .with_evidence(evidence("forecast"))
}

fn time_with_links() -> ForecastConsequence {
    consequence(ForecastConsequenceKind::Time, ForecastValue::TimeInterval { start_on: day(3), finish_on: day(9) })
}

fn consequence(kind: ForecastConsequenceKind, value: ForecastValue) -> ForecastConsequence {
    ForecastConsequence::new(
        project(),
        control("consequence.delay"),
        control("uncertainty.supply"),
        4,
        control("scenario.base"),
        kind,
        value,
        ForecastBasis::new(BaselineId::new("baseline.time").unwrap(), "three-point", 2, day(1)),
    )
    .affects(control("activity.steel"))
    .with_evidence(evidence("forecast"))
}

fn action() -> ProjectAction {
    ProjectAction::new(
        project(),
        control("action.rfi"),
        role("role.designer"),
        day(5),
        role("role.manager"),
        "steel order waits for the answer",
    )
}

fn decision() -> ProjectDecision {
    ProjectDecision::new(
        project(),
        control("decision.finish"),
        role("role.architect"),
        day(5),
        role("role.customer"),
        role("role.sponsor"),
        "finishes cannot be ordered",
    )
}

fn bid(kind: BidDecisionKind, decided_by: &str) -> BidDecision {
    BidDecision::new(
        project(),
        control("bid.hospital"),
        control("intent.hospital"),
        role("role.director"),
        role(decided_by),
        kind,
    )
    .with_capacity_view("site team available")
    .with_risk("ground conditions")
    .with_evidence(evidence("minutes"))
}

fn evidence(id: &str) -> ExternalRef {
    ExternalRef::new("docs", id, Some("v1".to_owned()), None)
}

fn project() -> ProjectId {
    ProjectId::new("project.alpha").unwrap()
}

fn control(id: &str) -> ControlId {
    ControlId::new(id).unwrap()
}

fn role(id: &str) -> RoleId {
    RoleId::new(id).unwrap()
}

fn day(offset: i32) -> ProjectDate {
    ProjectDate::from_julian_day(2_460_000 + offset)
}
