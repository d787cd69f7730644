//! What holds of the store's operations taken together, proved from the
//! model.

use crate::model::{audit_entry, lists_under, StorageView, HIGH_SEVERITY};
use crate::storage::Filter;
use crate::text::{
    decimal, incident_id_number, incident_id_text, lemma_incident_id_text, lemma_incident_ids_sort,
    sorts_before, zeros,
};
use crate::types::{IncidentView, RecommendationView, ResourceRequestView};
use vstd::prelude::*;

verus! {

/// A minted identifier shows the counter value it was minted from, and
/// depends on nothing else: two stores with the same counter mint the same
/// identifier, whatever records they hold.
pub proof fn lemma_minted_id_shows_counter(store: StorageView, other: StorageView)
    ensures
        incident_id_number(store.minted_id()) == store.next_id,
        other.next_id == store.next_id ==> other.minted_id() == store.minted_id(),
{
    lemma_incident_id_text(store.next_id);
}

/// Identifiers are minted in strictly increasing order: if nothing else was
/// minted between two mintings, the second identifier shows the number that
/// follows the first one's, and every later one shows a greater number and
/// differs from the first. While six digits suffice, a later identifier
/// also sorts after an earlier one.
pub proof fn lemma_minted_ids_increase(store: StorageView, later: StorageView)
    requires
        later.next_id >= store.after_minting().next_id,
    ensures
        incident_id_number(later.minted_id()) > incident_id_number(store.minted_id()),
        later.next_id == store.after_minting().next_id ==> incident_id_number(later.minted_id())
            == incident_id_number(store.minted_id()) + 1,
        later.minted_id() != store.minted_id(),
        later.next_id < 1_000_000 ==> sorts_before(store.minted_id(), later.minted_id()),
{
    lemma_incident_id_text(store.next_id);
    lemma_incident_id_text(later.next_id);
    if later.next_id < 1_000_000 {
        lemma_incident_ids_sort(store.next_id, later.next_id);
    }
}

/// The first two identifiers that a new store mints.
pub proof fn lemma_first_minted_ids()
    ensures
        StorageView::empty().minted_id() == "inc-000001"@,
        StorageView::empty().after_minting().minted_id() == "inc-000002"@,
{
    reveal_strlit("inc-");
    reveal_strlit("inc-000001");
    reveal_strlit("inc-000002");
    assert(decimal(1) =~= seq!['1']);
    assert(decimal(2) =~= seq!['2']);
    assert(zeros(5) =~= seq!['0', '0', '0', '0', '0']);
    assert(incident_id_text(1) =~= "inc-000001"@);
    assert(incident_id_text(2) =~= "inc-000002"@);
}

/// No operation lowers the counter, and only minting raises it.
pub proof fn lemma_counter_never_falls(
    store: StorageView,
    id: Seq<char>,
    incident: IncidentView,
    recommendation: RecommendationView,
    text: Seq<char>,
    notes: Seq<char>,
    now: nat,
)
    ensures
        store.after_minting().next_id == store.next_id + 1,
        store.add_incident(incident).next_id == store.next_id,
        store.update_incident(id, incident).next_id == store.next_id,
        store.create_incident(incident, now).next_id == if incident.incident_id.len() == 0 {
            store.next_id + 1
        } else {
            store.next_id
        },
        store.add_recommendation(id, recommendation, now).next_id == store.next_id,
        store.set_status(id, text, now).next_id == store.next_id,
        store.raise_resource_request(id, text, notes, now).next_id == store.next_id,
{
}

/// Creation stores the record under the identifier it returns. An incident
/// that comes without identifier gets the minted one, which is then also
/// the record's own; one that comes without status is stored as `received`.
/// Everything else but the audit trail is stored as given.
pub proof fn lemma_create_defaults(store: StorageView, incident: IncidentView, now: nat)
    ensures
        ({
            let id = store.created_id(incident);
            let stored = store.create_incident(incident, now).incidents[id];
            &&& store.create_incident(incident, now).incidents.contains_key(id)
            &&& stored.incident_id == id
            &&& incident.incident_id.len() == 0 ==> id == store.minted_id()
            &&& incident.incident_id.len() > 0 ==> id == incident.incident_id
            &&& incident.status.len() == 0 ==> stored.status == "received"@
            &&& incident.status.len() > 0 ==> stored.status == incident.status
            &&& stored == IncidentView {
                incident_id: stored.incident_id,
                status: stored.status,
                audit: stored.audit,
                ..incident
            }
        }),
{
}

/// Creation appends exactly one audit entry, named `created` and stamped
/// with the time of creation, to the audit trail that the incident came
/// with. An incident that comes with an empty trail is stored with that
/// entry alone.
pub proof fn lemma_create_logs_once(store: StorageView, incident: IncidentView, now: nat)
    ensures
        ({
            let stored = store.create_incident(incident, now).incidents[store.created_id(incident)];
            &&& stored.audit == incident.audit.push(audit_entry("created"@, now))
            &&& stored.audit.len() == incident.audit.len() + 1
            &&& stored.audit.last().event == "created"@
            &&& stored.audit.last().at == decimal(now)
            &&& incident.audit.len() == 0 ==> stored.audit == seq![audit_entry("created"@, now)]
        }),
{
    let stored = store.create_incident(incident, now).incidents[store.created_id(incident)];
    if incident.audit.len() == 0 {
        assert(stored.audit =~= seq![audit_entry("created"@, now)]);
    }
}

/// After the creation of an incident that comes with no audit entry named
/// `created`, the stored audit trail holds exactly one entry of that name:
/// its last.
pub proof fn lemma_created_entry_is_unique(store: StorageView, incident: IncidentView, now: nat)
    requires
        forall|i: int| 0 <= i < incident.audit.len() ==> incident.audit[i].event != "created"@,
    ensures
        ({
            let stored = store.create_incident(incident, now).incidents[store.created_id(incident)];
            forall|i: int|
                0 <= i < stored.audit.len() ==> (#[trigger] stored.audit[i].event == "created"@ <==> i
                    == stored.audit.len() - 1)
        }),
{
}

/// Creation adds the returned identifier to the stored ones and touches no
/// other record, so that the number of records grows by one for a new
/// identifier and stays for a known one.
pub proof fn lemma_create_counts(store: StorageView, incident: IncidentView, now: nat)
    requires
        store.incidents.dom().finite(),
    ensures
        ({
            let id = store.created_id(incident);
            let after = store.create_incident(incident, now);
            &&& after.incidents.dom() == store.incidents.dom().insert(id)
            &&& after.incidents.dom().finite()
            &&& after.incidents.len() == store.incidents.len() + if store.incidents.contains_key(id) {
                0nat
            } else {
                1nat
            }
            &&& forall|other: Seq<char>|
                other != id && store.incidents.contains_key(other) ==> after.incidents[other]
                    == store.incidents[other]
        }),
{
    let id = store.created_id(incident);
    let after = store.create_incident(incident, now);
    assert(after.incidents.dom() =~= store.incidents.dom().insert(id));
}

/// A change aimed at an identifier that is not stored changes nothing: no
/// record appears, and no audit entry is written anywhere.
pub proof fn lemma_unknown_id_is_ignored(
    store: StorageView,
    id: Seq<char>,
    incident: IncidentView,
    recommendation: RecommendationView,
    text: Seq<char>,
    notes: Seq<char>,
    now: nat,
)
    requires
        !store.incidents.contains_key(id),
    ensures
        store.update_incident(id, incident) == store,
        store.add_recommendation(id, recommendation, now) == store,
        store.set_status(id, text, now) == store,
        store.raise_resource_request(id, text, notes, now) == store,
{
}

/// A change aimed at a stored identifier leaves the set of identifiers, the
/// counter and every other record as they were.
pub proof fn lemma_change_touches_one_record(
    store: StorageView,
    id: Seq<char>,
    incident: IncidentView,
    recommendation: RecommendationView,
    text: Seq<char>,
    notes: Seq<char>,
    now: nat,
)
    requires
        store.incidents.contains_key(id),
    ensures
        ({
            let a = store.update_incident(id, incident);
            let b = store.add_recommendation(id, recommendation, now);
            let c = store.set_status(id, text, now);
            let d = store.raise_resource_request(id, text, notes, now);
            &&& a.incidents.dom() == store.incidents.dom()
            &&& b.incidents.dom() == store.incidents.dom()
            &&& c.incidents.dom() == store.incidents.dom()
            &&& d.incidents.dom() == store.incidents.dom()
            &&& a.incidents[id] == incident
            &&& forall|other: Seq<char>|
                other != id && store.incidents.contains_key(other) ==> {
                    &&& a.incidents[other] == store.incidents[other]
                    &&& b.incidents[other] == store.incidents[other]
                    &&& c.incidents[other] == store.incidents[other]
                    &&& d.incidents[other] == store.incidents[other]
                }
        }),
{
    assert(store.update_incident(id, incident).incidents.dom() =~= store.incidents.dom());
    assert(store.add_recommendation(id, recommendation, now).incidents.dom()
        =~= store.incidents.dom());
    assert(store.set_status(id, text, now).incidents.dom() =~= store.incidents.dom());
    assert(store.raise_resource_request(id, text, notes, now).incidents.dom()
        =~= store.incidents.dom());
}

/// Adding a recommendation to a stored incident appends it to the record's
/// recommendations, appends one audit entry named `recommendation_added`,
/// and leaves the rest of the record as it was.
pub proof fn lemma_add_recommendation(
    store: StorageView,
    id: Seq<char>,
    recommendation: RecommendationView,
    now: nat,
)
    requires
        store.incidents.contains_key(id),
    ensures
        ({
            let before = store.incidents[id];
            let after = store.add_recommendation(id, recommendation, now).incidents[id];
            &&& after.recommendations == before.recommendations.push(recommendation)
            &&& after.recommendations.len() == before.recommendations.len() + 1
            &&& after.audit == before.audit.push(audit_entry("recommendation_added"@, now))
            &&& after.audit.len() == before.audit.len() + 1
            &&& after.audit.last().event == "recommendation_added"@
            &&& after == IncidentView {
                recommendations: after.recommendations,
                audit: after.audit,
                ..before
            }
        }),
{
}

/// Setting the status of a stored incident overwrites the record's status,
/// appends one audit entry whose name is `status_updated_to_` followed by
/// the new status as given, and leaves the rest of the record as it was.
pub proof fn lemma_set_status(store: StorageView, id: Seq<char>, status: Seq<char>, now: nat)
    requires
        store.incidents.contains_key(id),
    ensures
        ({
            let before = store.incidents[id];
            let after = store.set_status(id, status, now).incidents[id];
            &&& after.status == status
            &&& after.audit == before.audit.push(
                audit_entry("status_updated_to_"@ + status, now),
            )
            &&& after.audit.len() == before.audit.len() + 1
            &&& after.audit.last().event == "status_updated_to_"@ + status
            &&& status == "verified"@ ==> after.audit.last().event == "status_updated_to_verified"@
            &&& after == IncidentView { status: after.status, audit: after.audit, ..before }
        }),
{
    reveal_strlit("status_updated_to_");
    reveal_strlit("verified");
    reveal_strlit("status_updated_to_verified");
    assert("status_updated_to_"@ + "verified"@ =~= "status_updated_to_verified"@);
}

/// Raising a resource request on a stored incident overwrites the record's
/// request by one that is marked as requested, holds the given type and
/// notes and is stamped with the time, appends one audit entry named
/// `resource_requested`, and leaves the rest of the record as it was.
pub proof fn lemma_raise_resource_request(
    store: StorageView,
    id: Seq<char>,
    request_type: Seq<char>,
    notes: Seq<char>,
    now: nat,
)
    requires
        store.incidents.contains_key(id),
    ensures
        ({
            let before = store.incidents[id];
            let after = store.raise_resource_request(id, request_type, notes, now).incidents[id];
            &&& after.resource_request == ResourceRequestView {
                requested: true,
                type_: request_type,
                notes,
                created_at: Some(decimal(now)),
            }
            &&& after.audit == before.audit.push(audit_entry("resource_requested"@, now))
            &&& after.audit.len() == before.audit.len() + 1
            &&& after == IncidentView {
                resource_request: after.resource_request,
                audit: after.audit,
                ..before
            }
        }),
{
}

/// Of two resource requests raised on one stored incident only the second
/// stays visible, while the audit trail holds an entry for each.
pub proof fn lemma_second_request_replaces_first(
    store: StorageView,
    id: Seq<char>,
    first_type: Seq<char>,
    first_notes: Seq<char>,
    first_now: nat,
    second_type: Seq<char>,
    second_notes: Seq<char>,
    second_now: nat,
)
    requires
        store.incidents.contains_key(id),
    ensures
        ({
            let before = store.incidents[id];
            let once = store.raise_resource_request(id, first_type, first_notes, first_now);
            let twice = once.raise_resource_request(id, second_type, second_notes, second_now);
            let after = twice.incidents[id];
            &&& after.resource_request == ResourceRequestView {
                requested: true,
                type_: second_type,
                notes: second_notes,
                created_at: Some(decimal(second_now)),
            }
            &&& after.audit == before.audit.push(
                audit_entry("resource_requested"@, first_now),
            ).push(audit_entry("resource_requested"@, second_now))
            &&& after.audit.len() == before.audit.len() + 2
            &&& twice.incidents.dom() == store.incidents.dom()
        }),
{
}

/// The audit trail and the recommendations of a stored incident only grow:
/// after any of the three changes the old trail and the old list are the
/// beginning of the new ones, and the record keeps its identifier.
pub proof fn lemma_history_only_grows(
    store: StorageView,
    id: Seq<char>,
    recommendation: RecommendationView,
    text: Seq<char>,
    notes: Seq<char>,
    now: nat,
)
    requires
        store.incidents.contains_key(id),
    ensures
        ({
            let before = store.incidents[id];
            let b = store.add_recommendation(id, recommendation, now).incidents[id];
            let c = store.set_status(id, text, now).incidents[id];
            let d = store.raise_resource_request(id, text, notes, now).incidents[id];
            &&& before.audit.is_prefix_of(b.audit)
            &&& before.audit.is_prefix_of(c.audit)
            &&& before.audit.is_prefix_of(d.audit)
            &&& before.recommendations.is_prefix_of(b.recommendations)
            &&& c.recommendations == before.recommendations
            &&& d.recommendations == before.recommendations
            &&& b.incident_id == before.incident_id
            &&& c.incident_id == before.incident_id
            &&& d.incident_id == before.incident_id
        }),
{
}

/// The severity filter accepts a record exactly from a score of seventy on:
/// seventy is accepted, sixty-nine is not.
pub proof fn lemma_high_severity_boundary(record: IncidentView)
    ensures
        HIGH_SEVERITY == 70,
        Filter::HighSeverity.accepts(record) <==> record.enriched.severity_score >= 70,
        record.enriched.severity_score == 70 ==> Filter::HighSeverity.accepts(record),
        record.enriched.severity_score == 69 ==> !Filter::HighSeverity.accepts(record),
{
}

/// What a scan finds is stored and accepted, every stored record that is
/// accepted is found, and there are as many finds as stored identifiers with
/// an accepted record.
pub proof fn lemma_scan(
    store: StorageView,
    wanted: spec_fn(IncidentView) -> bool,
    found: Seq<IncidentView>,
)
    requires
        store.selects(wanted, found),
        store.incidents.dom().finite(),
    ensures
        forall|i: int|
            0 <= i < found.len() ==> wanted(#[trigger] found[i]) && store.incidents.contains_value(
                found[i],
            ),
        forall|id: Seq<char>|
            #[trigger] store.incidents.contains_key(id) && wanted(store.incidents[id])
                ==> found.contains(store.incidents[id]),
        found.len() == store.incidents.dom().filter(
            |id: Seq<char>| wanted(store.incidents[id]),
        ).len(),
{
    let ids = choose|ids: Seq<Seq<char>>| lists_under(store.incidents, wanted, ids, found);
    assert forall|i: int| 0 <= i < found.len() implies wanted(#[trigger] found[i])
        && store.incidents.contains_value(found[i]) by {
        assert(store.incidents.contains_key(ids[i]));
    }
    assert forall|id: Seq<char>|
        #[trigger] store.incidents.contains_key(id) && wanted(
            store.incidents[id],
        ) implies found.contains(store.incidents[id]) by {
        let i = ids.index_of(id);
        assert(ids.contains(id));
        assert(found[i] == store.incidents[id]);
    }
    let accepted = store.incidents.dom().filter(|id: Seq<char>| wanted(store.incidents[id]));
    assert(ids.to_set() =~= accepted) by {
        assert forall|id: Seq<char>| ids.to_set().contains(id) <==> accepted.contains(id) by {
            if ids.contains(id) {
                let i = ids.index_of(id);
                assert(store.incidents.contains_key(ids[i]));
            }
        }
    }
    ids.unique_seq_to_set();
}

/// A scan of a store without records finds nothing.
pub proof fn lemma_scan_of_empty_store(
    wanted: spec_fn(IncidentView) -> bool,
    found: Seq<IncidentView>,
)
    requires
        StorageView::empty().selects(wanted, found),
    ensures
        found.len() == 0,
{
    let ids = choose|ids: Seq<Seq<char>>|
        lists_under(StorageView::empty().incidents, wanted, ids, found);
    if ids.len() > 0 {
        assert(StorageView::empty().incidents.contains_key(ids[0]));
    }
}

/// A record that was just created is found by the scans that accept it as
/// stored: by its locality, by its status, and by severity from a score of
/// seventy on.
pub proof fn lemma_created_record_is_found(
    store: StorageView,
    incident: IncidentView,
    now: nat,
    filter: Filter,
    found: Seq<IncidentView>,
)
    requires
        ({
            let after = store.create_incident(incident, now);
            let stored = after.incidents[store.created_id(incident)];
            after.selects(filter.wanted(), found) && filter.accepts(stored)
        }),
    ensures
        found.contains(
            store.create_incident(incident, now).incidents[store.created_id(incident)],
        ),
{
    let after = store.create_incident(incident, now);
    let id = store.created_id(incident);
    let ids = choose|ids: Seq<Seq<char>>|
        lists_under(after.incidents, filter.wanted(), ids, found);
    assert(after.incidents.contains_key(id));
    assert(ids.contains(id));
    let i = ids.index_of(id);
    assert(found[i] == after.incidents[id]);
}

} // verus!
