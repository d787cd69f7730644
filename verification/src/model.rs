//! The mathematical model of the store: what each operation does to the
//! mapping from identifiers to records and to the identifier counter.

use crate::text::{decimal, incident_id_text};
use crate::types::{AuditView, IncidentView, RecommendationView, ResourceRequestView};
use vstd::prelude::*;

verus! {

/// Severity score from which an incident counts as high severity.
pub const HIGH_SEVERITY: u16 = 70;

/// The audit entry written for `event` at time `now`: the time is rendered
/// as a decimal numeral.
pub open spec fn audit_entry(event: Seq<char>, now: nat) -> AuditView {
    AuditView { event, at: decimal(now) }
}

impl IncidentView {
    /// The record with one more audit entry.
    pub open spec fn logged(self, event: Seq<char>, now: nat) -> IncidentView {
        IncidentView { audit: self.audit.push(audit_entry(event, now)), ..self }
    }

    /// The record as it is stored on creation under `id`: an empty status
    /// becomes `received`, and the creation is logged.
    pub open spec fn created(self, id: Seq<char>, now: nat) -> IncidentView {
        IncidentView {
            incident_id: id,
            status: if self.status.len() == 0 {
                "received"@
            } else {
                self.status
            },
            ..self
        }.logged("created"@, now)
    }

    /// The record with `recommendation` appended, logged.
    pub open spec fn with_recommendation(
        self,
        recommendation: RecommendationView,
        now: nat,
    ) -> IncidentView {
        IncidentView {
            recommendations: self.recommendations.push(recommendation),
            ..self
        }.logged("recommendation_added"@, now)
    }

    /// The record with its status overwritten, logged under an event name
    /// that ends in the new status.
    pub open spec fn with_status(self, status: Seq<char>, now: nat) -> IncidentView {
        IncidentView { status, ..self }.logged("status_updated_to_"@ + status, now)
    }

    /// The record with its resource request overwritten by a fresh one,
    /// logged.
    pub open spec fn with_resource_request(
        self,
        request_type: Seq<char>,
        notes: Seq<char>,
        now: nat,
    ) -> IncidentView {
        IncidentView {
            resource_request: ResourceRequestView {
                requested: true,
                type_: request_type,
                notes,
                created_at: Some(decimal(now)),
            },
            ..self
        }.logged("resource_requested"@, now)
    }

    /// Whether the record counts as high severity.
    pub open spec fn is_high_severity(self) -> bool {
        self.enriched.severity_score >= HIGH_SEVERITY
    }
}

/// The value of a store: the records by identifier, and the counter from
/// which the next identifier is minted.
#[verifier::ext_equal]
pub struct StorageView {
    pub incidents: Map<Seq<char>, IncidentView>,
    pub next_id: nat,
}

impl StorageView {
    /// The store before anything was recorded.
    pub open spec fn empty() -> StorageView {
        StorageView { incidents: Map::empty(), next_id: 1 }
    }

    /// The identifier that the next minting gives.
    pub open spec fn minted_id(self) -> Seq<char> {
        incident_id_text(self.next_id)
    }

    /// The store after one identifier was minted.
    pub open spec fn after_minting(self) -> StorageView {
        StorageView { next_id: self.next_id + 1, ..self }
    }

    /// The store with `record` kept under `id`, whatever was there before.
    pub open spec fn with_record(self, id: Seq<char>, record: IncidentView) -> StorageView {
        StorageView { incidents: self.incidents.insert(id, record), ..self }
    }

    /// Stores `incident` under its own identifier.
    pub open spec fn add_incident(self, incident: IncidentView) -> StorageView {
        self.with_record(incident.incident_id, incident)
    }

    /// Overwrites the record under `id`, if there is one.
    pub open spec fn update_incident(self, id: Seq<char>, incident: IncidentView) -> StorageView {
        if self.incidents.contains_key(id) {
            self.with_record(id, incident)
        } else {
            self
        }
    }

    /// The identifier under which creation stores `incident`: its own, or a
    /// minted one where it has none.
    pub open spec fn created_id(self, incident: IncidentView) -> Seq<char> {
        if incident.incident_id.len() == 0 {
            self.minted_id()
        } else {
            incident.incident_id
        }
    }

    /// Creates `incident` at time `now`.
    pub open spec fn create_incident(self, incident: IncidentView, now: nat) -> StorageView {
        let id = self.created_id(incident);
        let base = if incident.incident_id.len() == 0 {
            self.after_minting()
        } else {
            self
        };
        base.with_record(id, incident.created(id, now))
    }

    /// Appends `recommendation` to the record under `id`; nothing changes
    /// where there is no such record.
    pub open spec fn add_recommendation(
        self,
        id: Seq<char>,
        recommendation: RecommendationView,
        now: nat,
    ) -> StorageView {
        if self.incidents.contains_key(id) {
            self.with_record(id, self.incidents[id].with_recommendation(recommendation, now))
        } else {
            self
        }
    }

    /// Overwrites the status of the record under `id`; nothing changes
    /// where there is no such record.
    pub open spec fn set_status(self, id: Seq<char>, status: Seq<char>, now: nat) -> StorageView {
        if self.incidents.contains_key(id) {
            self.with_record(id, self.incidents[id].with_status(status, now))
        } else {
            self
        }
    }

    /// Overwrites the resource request of the record under `id`; nothing
    /// changes where there is no such record.
    pub open spec fn raise_resource_request(
        self,
        id: Seq<char>,
        request_type: Seq<char>,
        notes: Seq<char>,
        now: nat,
    ) -> StorageView {
        if self.incidents.contains_key(id) {
            self.with_record(
                id,
                self.incidents[id].with_resource_request(request_type, notes, now),
            )
        } else {
            self
        }
    }

    /// Whether `found` holds exactly the stored records that `wanted`
    /// accepts, each once, in some order.
    pub open spec fn selects(
        self,
        wanted: spec_fn(IncidentView) -> bool,
        found: Seq<IncidentView>,
    ) -> bool {
        exists|ids: Seq<Seq<char>>| lists_under(self.incidents, wanted, ids, found)
    }
}

/// Whether `found` lists, in the order of `ids`, exactly the records of
/// `incidents` that `wanted` accepts, each once.
pub open spec fn lists_under(
    incidents: Map<Seq<char>, IncidentView>,
    wanted: spec_fn(IncidentView) -> bool,
    ids: Seq<Seq<char>>,
    found: Seq<IncidentView>,
) -> bool {
    &&& ids.no_duplicates()
    &&& ids.len() == found.len()
    &&& forall|i: int|
        0 <= i < ids.len() ==> {
            &&& incidents.contains_key(#[trigger] ids[i])
            &&& wanted(incidents[ids[i]])
            &&& found[i] == incidents[ids[i]]
        }
    &&& forall|id: Seq<char>|
        #[trigger] incidents.contains_key(id) && wanted(incidents[id]) ==> ids.contains(id)
}

} // verus!
