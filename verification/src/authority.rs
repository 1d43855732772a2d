//! Library-owned construction project-control capability names.

use vstd::prelude::*;

verus! {

/// Capability to read construction project-control records.
pub const CONSTRUCTION_PROJECT_READ_CAPABILITY: &'static str = "construction.project.read";

/// Capability to write construction project-control records.
pub const CONSTRUCTION_PROJECT_WRITE_CAPABILITY: &'static str = "construction.project.write";

/// Capability to accept construction project-control records.
pub const CONSTRUCTION_PROJECT_ACCEPT_CAPABILITY: &'static str = "construction.project.accept";

/// Capability to decide construction exceptions.
pub const CONSTRUCTION_EXCEPTION_CAPABILITY: &'static str = "construction.exception";

/// Capability to publish construction references.
pub const CONSTRUCTION_REFERENCE_PUBLISH_CAPABILITY: &'static str = "construction.reference.publish";

} // verus!
