//! Verified construction project control: stable identities, the
//! append-only fact book, the typed control graph, handover hierarchies,
//! commissioning requirements, gates and decisions, change exposure, final
//! economy and closeout, risk escalation and exposure buckets, governance,
//! charter and field-control rules.

#![allow(unused_imports)]

pub mod error;
pub mod text;
pub mod date;
pub mod evidence;
pub mod identity;
pub mod order;
pub mod control_graph;
pub mod handover;
pub mod cadence;
pub mod governance;
pub mod charter;
pub mod obligation;
pub mod commissioning;
pub mod authority;
pub mod exception;
pub mod closeout;
pub mod field_item;
pub mod incident;
pub mod inspection;
pub mod acceptance;
pub mod gate;
pub mod commercial;
pub mod action;
pub mod decision;
pub mod bid;
pub mod award;
pub mod change;
pub mod forecast;
pub mod change_exposure;
pub mod final_economy;
pub mod fact;
pub mod book;
pub mod field_import;
pub mod snapshot;
pub mod baseline;
pub mod uncertainty;
pub mod exposure;
pub mod escalation;
pub mod collaboration;
pub mod design;
pub mod handoff;

pub use error::ConstructionProjectError;
pub use identity::{BaselineId, ChangeId, ControlId, OrganizationId, ProjectId, RoleId};
pub use date::ProjectDate;
pub use evidence::{EvidenceState, EvidenceValidity, ExternalRef};
