# sim-lib-construction-project

Construction project control as a verified library: stable identities, an
append-only fact book, the typed control graph and handover hierarchies,
commissioning requirements and control-set validation, gate policies and
acceptance decisions, change exposure, final economy and closeout
validation, risk and opportunity exposure and escalation, field-control
items with their imports, design-control readiness (revisions, reviews,
RFIs, releases, permits, inspections and authority obligations, analysed
through the control graph), and package handoff readiness.

## Layout

- `src/` — the library, written in Verus. Every public function states its
  result in `ensures`; the public `lemma_*` proof functions state properties
  that span calls (for example, that replaying a fact book does not depend on
  input order, or that importing the same field item twice is a duplicate).
- `tests/` — ordinary Rust tests that run the compiled library.
- `app/` — edges around the library: readable error messages, conversion
  between `time::Date` and `ProjectDate`, and JSON records for reference-only
  evidence links.

Amounts are exact integers in minor units. Dates are Julian day numbers.

## Not provided

These parts of construction project control are not in this library:

- snapshots and deltas of a fact book (`ProjectSnapshot` is built by the
  caller from the book's current and superseded facts);
- the commissioning readiness roll-up, the handover gate report, the
  closeout report and the collaboration readiness report, which rest on a
  gate-policy evaluation not provided here;
- office evidence attachment and projection.
