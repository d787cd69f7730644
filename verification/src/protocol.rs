//! The changes that an incident goes through. Each one fetches the record,
//! changes a copy, appends one audit entry and writes the copy back; where
//! the identifier is unknown it does nothing at all.

use crate::storage::Storage;
use crate::text::decimal_string;
use crate::types::{Audit, Incident, Recommendation, ResourceRequest};
use vstd::prelude::*;
use vstd::string::*;

verus! {

/// Appends the audit entry for `event` at time `now` to `incident`.
fn log(incident: &mut Incident, event: String, now: u64)
    ensures
        final(incident)@ == old(incident)@.logged(event@, now as nat),
{
    incident.audit.push(Audit { event, at: decimal_string(now) });
    assert(incident.audit.deep_view() =~= old(incident)@.logged(event@, now as nat).audit);
}

impl Storage {
    /// An independent copy of the record kept under `incident_id`.
    fn fetch(&self, incident_id: &str) -> (found: Option<Incident>)
        ensures
            match found {
                Some(record) => self@.incidents.contains_key(incident_id@) && record@
                    == self@.incidents[incident_id@],
                None => !self@.incidents.contains_key(incident_id@),
            },
    {
        match self.get_incident(incident_id) {
            Some(record) => Some(record.clone()),
            None => None,
        }
    }

    /// Records a new incident at time `now` and returns the identifier it is
    /// stored under: its own, or a freshly minted one where it has none. An
    /// empty status becomes `received`, and the creation is the record's
    /// newest audit entry. A record already kept under the identifier is
    /// replaced. Where an identifier has to be minted, the counter must have
    /// a successor.
    pub fn create_incident(&mut self, incident: Incident, now: u64) -> (id: String)
        requires
            incident@.incident_id.len() == 0 ==> old(self)@.next_id < u64::MAX,
        ensures
            id@ == old(self)@.created_id(incident@),
            final(self)@ == old(self)@.create_incident(incident@, now as nat),
    {
        let ghost given = incident@;
        let mut incident = incident;
        if incident.incident_id.as_str().is_empty() {
            incident.incident_id = self.generate_incident_id();
        }
        log(&mut incident, "created".to_owned(), now);
        if incident.status.as_str().is_empty() {
            incident.status = "received".to_owned();
        }
        assert(incident@ =~= given.created(incident@.incident_id, now as nat));
        self.add_incident(incident)
    }

    /// Appends `recommendation` to the record kept under `incident_id` and
    /// logs it at time `now`.
    pub fn add_recommendation(
        &mut self,
        incident_id: &str,
        recommendation: Recommendation,
        now: u64,
    )
        ensures
            final(self)@ == old(self)@.add_recommendation(
                incident_id@,
                recommendation@,
                now as nat,
            ),
    {
        if let Some(mut incident) = self.fetch(incident_id) {
            let ghost before = incident@;
            incident.recommendations.push(recommendation);
            assert(incident.recommendations.deep_view() =~= before.recommendations.push(
                recommendation@,
            ));
            log(&mut incident, "recommendation_added".to_owned(), now);
            assert(incident@ =~= before.with_recommendation(recommendation@, now as nat));
            self.update_incident(incident_id, incident);
        }
    }

    /// Overwrites the status of the record kept under `incident_id` and logs
    /// the change at time `now` under an event name that ends in the new
    /// status.
    pub fn set_status(&mut self, incident_id: &str, status: String, now: u64)
        ensures
            final(self)@ == old(self)@.set_status(incident_id@, status@, now as nat),
    {
        if let Some(mut incident) = self.fetch(incident_id) {
            let ghost before = incident@;
            let mut event = "status_updated_to_".to_owned();
            event.append(status.as_str());
            incident.status = status;
            log(&mut incident, event, now);
            assert(incident@ =~= before.with_status(status@, now as nat));
            self.update_incident(incident_id, incident);
        }
    }

    /// Overwrites the resource request of the record kept under
    /// `incident_id` by a fresh one, made at time `now`, and logs it. An
    /// earlier request is not kept.
    pub fn raise_resource_request(
        &mut self,
        incident_id: &str,
        request_type: String,
        notes: String,
        now: u64,
    )
        ensures
            final(self)@ == old(self)@.raise_resource_request(
                incident_id@,
                request_type@,
                notes@,
                now as nat,
            ),
    {
        if let Some(mut incident) = self.fetch(incident_id) {
            let ghost before = incident@;
            incident.resource_request = ResourceRequest {
                requested: true,
                type_: request_type,
                notes,
                created_at: Some(decimal_string(now)),
            };
            log(&mut incident, "resource_requested".to_owned(), now);
            assert(incident@ =~= before.with_resource_request(
                request_type@,
                notes@,
                now as nat,
            ));
            self.update_incident(incident_id, incident);
        }
    }
}

} // verus!
