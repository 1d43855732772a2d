use sim_lib_construction_project::book::{ProjectBook, DEFAULT_MAX_PROJECT_FACTS};
use sim_lib_construction_project::fact::{FactBody, ProjectFact, MAX_FACT_BODY_NODES, MAX_FACT_EVIDENCE_REFS};
use sim_lib_construction_project::governance::Symbol;
use sim_lib_construction_project::{ConstructionProjectError, ControlId, EvidenceState, ExternalRef, ProjectDate, ProjectId, RoleId};

#[test]
fn invalid_sequences_and_supersession_edges_fail_closed() {
    let duplicate = ProjectBook::from_facts(
        project(),
        writer(),
        vec![fact(1, "decision.fixture", "open fixture"), fact(1, "decision.other", "other fixture")],
    );
    assert!(matches!(duplicate, Err(ConstructionProjectError::DuplicateSequence { sequence: 1 })));

    let mut book = book();
    book.append(fact(1, "decision.fixture", "open fixture")).unwrap();

    assert!(matches!(
        book.append(fact(2, "decision.fixture", "bad cycle").supersedes(2)),
        Err(ConstructionProjectError::InvalidSupersession { .. })
    ));
    assert!(matches!(
        book.append(fact(100, "decision.fixture", "missing").supersedes(99)),
        Err(ConstructionProjectError::MissingSupersededFact { .. })
    ));
    assert!(matches!(
        book.append(fact(2, "decision.other", "wrong subject").supersedes(1)),
        Err(ConstructionProjectError::SupersessionSubjectMismatch { .. })
    ));

    book.append(fact(2, "decision.fixture", "approve fixture").supersedes(1)).unwrap();
    assert!(matches!(
        book.append(fact(3, "decision.fixture", "fork fixture").supersedes(1)),
        Err(ConstructionProjectError::SupersessionFork { .. })
    ));
}

#[test]
fn project_book_replays_facts_in_sequence_order() {
    let writer = writer();
    let project = project();
    let facts = vec![
        fact(2, "decision.fixture", "approve fixture").supersedes(1),
        fact(1, "decision.fixture", "open fixture"),
    ];

    let book = ProjectBook::from_facts(project, writer, facts).unwrap();

    assert_eq!(book.last_sequence(), Some(2));
    let sequences: Vec<u64> = book.facts().iter().map(|fact| fact.seq).collect();
    assert_eq!(sequences, vec![1, 2]);
    assert_eq!(book.fact(2).unwrap().supersedes, Some(1));
    assert_eq!(book.fact(2).unwrap().subject, control("decision.fixture"));
}

#[test]
fn project_book_enforces_project_writer_and_bounds() {
    let mut book = ProjectBook::new(project(), writer()).with_max_facts(1);
    book.append(fact(1, "decision.fixture", "open fixture")).unwrap();
    assert!(matches!(
        book.append(fact(2, "decision.other", "other fixture")),
        Err(ConstructionProjectError::FactLimitExceeded { max: 1 })
    ));

    let wrong_project = ProjectFact::new(
        1,
        ProjectId::new("other-project").unwrap(),
        control("decision.fixture"),
        fact_kind(),
        accepted_on(),
        writer(),
        FactBody::Expression { nodes: 1 },
    );
    assert!(matches!(
        ProjectBook::new(project(), writer()).append(wrong_project),
        Err(ConstructionProjectError::ProjectMismatch { .. })
    ));

    let wrong_writer = ProjectFact::new(
        1,
        project(),
        control("decision.fixture"),
        fact_kind(),
        accepted_on(),
        RoleId::new("supplier-lead").unwrap(),
        FactBody::Expression { nodes: 1 },
    );
    assert!(matches!(
        ProjectBook::new(project(), writer()).append(wrong_writer),
        Err(ConstructionProjectError::WriterMismatch { .. })
    ));

    let oversized_body = ProjectFact::new(
        1,
        project(),
        control("decision.fixture"),
        fact_kind(),
        accepted_on(),
        writer(),
        FactBody::Expression { nodes: MAX_FACT_BODY_NODES + 1 },
    );
    assert!(matches!(
        ProjectBook::new(project(), writer()).append(oversized_body),
        Err(ConstructionProjectError::FactBodyTooLarge { .. })
    ));
}

#[test]
fn replay_orders_facts_by_sequence_whatever_the_input_order() {
    let forward = ProjectBook::from_facts(
        project(),
        writer(),
        vec![
            fact(1, "decision.fixture", "open fixture"),
            fact(2, "decision.fixture", "approve fixture").supersedes(1),
            fact(5, "requirement.access", "access rule"),
        ],
    )
    .unwrap();
    let shuffled = ProjectBook::from_facts(
        project(),
        writer(),
        vec![
            fact(5, "requirement.access", "access rule"),
            fact(2, "decision.fixture", "approve fixture").supersedes(1),
            fact(1, "decision.fixture", "open fixture"),
        ],
    )
    .unwrap();
    assert_eq!(forward, shuffled);
    assert_eq!(forward.last_sequence(), Some(5));
    assert_eq!(forward.len(), 3);
    assert!(!forward.is_empty());
    let sequences: Vec<u64> = forward.facts().iter().map(|fact| fact.seq).collect();
    assert_eq!(sequences, vec![1, 2, 5]);
    assert_eq!(forward.fact(2).unwrap().supersedes, Some(1));
    assert!(forward.fact(3).is_none());
    assert_eq!(forward.project(), &project());
    assert_eq!(forward.authoritative_writer(), &writer());
    assert_eq!(forward.max_facts(), DEFAULT_MAX_PROJECT_FACTS);
}

#[test]
fn refused_append_leaves_the_book_unchanged_and_order_is_enforced() {
    let mut book = book();
    assert_eq!(book.last_sequence(), None);
    book.append(fact(3, "decision.fixture", "open fixture")).unwrap();
    assert_eq!(
        book.append(fact(2, "decision.other", "late")),
        Err(ConstructionProjectError::OutOfOrderSequence { last_sequence: 3, next_sequence: 2 })
    );
    assert_eq!(
        book.append(fact(3, "decision.other", "again")),
        Err(ConstructionProjectError::DuplicateSequence { sequence: 3 })
    );
    assert_eq!(book.len(), 1);
    assert_eq!(book.last_sequence(), Some(3));
}

#[test]
fn fact_bounds_name_the_first_broken_rule() {
    let zero = fact(0, "decision.fixture", "zero");
    assert_eq!(
        zero.validate_bounds(),
        Err(ConstructionProjectError::InvalidSequence { field: "fact.seq", sequence: 0 })
    );
    let slashed = ProjectFact::new(
        1,
        project(),
        control("decision.fixture"),
        Symbol::new("construction/fact"),
        accepted_on(),
        writer(),
        FactBody::Expression { nodes: 1 },
    );
    assert_eq!(
        slashed.validate_bounds(),
        Err(ConstructionProjectError::InvalidSymbol {
            value: "construction/fact".to_owned(),
            reason: "fact kind must be an unambiguous printable symbol".to_owned(),
        })
    );
    let unprintable = ProjectFact::new(
        1,
        project(),
        control("decision.fixture"),
        Symbol::qualified("construction", "fa\u{7}ct"),
        accepted_on(),
        writer(),
        FactBody::Expression { nodes: 1 },
    );
    assert!(matches!(unprintable.validate_bounds(), Err(ConstructionProjectError::InvalidSymbol { .. })));
    let unnamed = ProjectFact::new(
        1,
        project(),
        control("decision.fixture"),
        Symbol::qualified("", "fact"),
        accepted_on(),
        writer(),
        FactBody::Expression { nodes: 1 },
    );
    assert!(matches!(unnamed.validate_bounds(), Err(ConstructionProjectError::InvalidSymbol { .. })));
    assert_eq!(fact(1, "decision.fixture", "plain").validate_bounds(), Ok(()));
    let mut crowded = fact(1, "decision.fixture", "crowded");
    for _ in 0..MAX_FACT_EVIDENCE_REFS {
        crowded = crowded.with_evidence(evidence_ref(1));
    }
    assert_eq!(
        crowded.validate_bounds(),
        Err(ConstructionProjectError::EvidenceLimitExceeded {
            sequence: 1,
            count: MAX_FACT_EVIDENCE_REFS + 1,
            max: MAX_FACT_EVIDENCE_REFS,
        })
    );
    let blank_version = fact(1, "decision.fixture", "blank")
        .with_evidence(ExternalRef::new("doc/synthetic", "fact/1", Some(" ".to_owned()), None));
    assert_eq!(blank_version.validate_bounds(), Err(ConstructionProjectError::EmptyField("fact.evidence.version")));
    let rejected = fact(1, "decision.fixture", "rejected").with_evidence_state(EvidenceState::Rejected);
    assert_eq!(rejected.validate_bounds(), Ok(()));
}

fn book() -> ProjectBook {
    ProjectBook::new(project(), writer())
}

fn fact(seq: u64, subject: &str, _body: &str) -> ProjectFact {
    ProjectFact::new(seq, project(), control(subject), fact_kind(), accepted_on(), writer(), FactBody::Expression { nodes: 1 }).with_evidence(evidence_ref(seq))
}

fn project() -> ProjectId {
    ProjectId::new("reference-center").unwrap()
}

fn writer() -> RoleId {
    RoleId::new("project-chief").unwrap()
}

fn control(id: &str) -> ControlId {
    ControlId::new(id).unwrap()
}

fn fact_kind() -> Symbol {
    Symbol::qualified("construction", "fact")
}

fn evidence_ref(seq: u64) -> ExternalRef {
    ExternalRef::new("doc/synthetic", &format!("fact/reference-center/{seq}"), Some(format!("rev-{seq}")), None)
}

fn accepted_on() -> ProjectDate {
    ProjectDate::from_calendar_date(2026, 7, 23).unwrap()
}

#[test]
fn replay_refuses_the_same_fact_whatever_the_input_order() {
    let forward = ProjectBook::from_facts(
        project(),
        writer(),
        vec![
            fact(1, "decision.fixture", "open fixture"),
            fact(2, "decision.other", "wrong subject").supersedes(1),
            fact(3, "decision.fixture", "approve fixture"),
        ],
    );
    let shuffled = ProjectBook::from_facts(
        project(),
        writer(),
        vec![
            fact(3, "decision.fixture", "approve fixture"),
            fact(1, "decision.fixture", "open fixture"),
            fact(2, "decision.other", "wrong subject").supersedes(1),
        ],
    );
    assert_eq!(forward, shuffled);
    assert_eq!(
        forward,
        Err(ConstructionProjectError::SupersessionSubjectMismatch {
            sequence: 2,
            supersedes: 1,
            expected: control("decision.fixture"),
            actual: control("decision.other"),
        })
    );
}
