use agri_assist::model::HIGH_SEVERITY;
use agri_assist::storage::{Filter, Storage};
use agri_assist::types::{Audit, Enriched, Geo, Incident, Recommendation, ResourceRequest};

fn record(id: &str, lga: &str, status: &str, score: u16) -> Incident {
    Incident {
        incident_id: id.to_string(),
        farmer_id: "farmer-7".to_string(),
        lga: lga.to_string(),
        state: "Kano State".to_string(),
        geo: Geo { lat_bits: 12.0022f64.to_bits(), lon_bits: 8.592f64.to_bits() },
        crop: "maize".to_string(),
        category: "pest".to_string(),
        description: "armyworm on the lower leaves".to_string(),
        reported_at: "2024-05-01T08:00:00Z".to_string(),
        enriched: Enriched {
            weather_hint: "dry spell".to_string(),
            severity_score: score,
            tags: vec!["armyworm".to_string(), "maize".to_string()],
        },
        status: status.to_string(),
        recommendations: Vec::new(),
        resource_request: ResourceRequest {
            requested: false,
            type_: String::new(),
            notes: String::new(),
            created_at: None,
        },
        audit: Vec::new(),
    }
}

fn sorted_ids(found: &[Incident]) -> Vec<String> {
    let mut ids: Vec<String> = found.iter().map(|r| r.incident_id.clone()).collect();
    ids.sort();
    ids
}

#[test]
fn new_store_is_empty_and_starts_counting_at_one() {
    let store = Storage::new();
    assert_eq!(store.count(), 0);
    assert_eq!(store.next_id(), 1);
    assert!(store.get_all_incidents().is_empty());
}

#[test]
fn get_incident_of_unknown_id_is_absent() {
    let mut store = Storage::new();
    assert!(store.get_incident("inc-000001").is_none());
    store.add_incident(record("inc-000001", "Kano", "received", 10));
    assert!(store.get_incident("inc-000002").is_none());
    assert!(store.get_incident("").is_none());
    assert!(store.get_incident("inc-00000").is_none());
    assert!(store.get_incident("INC-000001").is_none());
}

#[test]
fn generated_ids_are_zero_padded_and_increase() {
    let mut store = Storage::new();
    assert_eq!(store.generate_incident_id(), "inc-000001");
    assert_eq!(store.generate_incident_id(), "inc-000002");
    assert_eq!(store.generate_incident_id(), "inc-000003");
    assert_eq!(store.next_id(), 4);
}

#[test]
fn generated_ids_ignore_the_stored_records() {
    let mut store = Storage::new();
    assert_eq!(store.generate_incident_id(), "inc-000001");
    store.add_incident(record("inc-000002", "Kano", "received", 10));
    store.add_incident(record("custom", "Kano", "received", 10));
    assert!(store.update_incident("custom", record("custom", "Jos", "verified", 20)));
    assert_eq!(store.generate_incident_id(), "inc-000002");
    assert_eq!(store.count(), 2);
}

#[test]
fn generating_an_id_stores_nothing() {
    let mut store = Storage::new();
    store.add_incident(record("a", "Kano", "received", 10));
    let id = store.generate_incident_id();
    assert_eq!(store.count(), 1);
    assert!(store.get_incident(&id).is_none());
    assert_eq!(store.get_incident("a").unwrap().lga, "Kano");
}

#[test]
fn generated_ids_keep_increasing() {
    let mut store = Storage::new();
    let mut last = String::new();
    for _ in 0..1000 {
        let id = store.generate_incident_id();
        assert!(id > last);
        last = id;
    }
    assert_eq!(last, "inc-001000");
}

#[test]
fn add_incident_returns_the_id_and_stores_the_record() {
    let mut store = Storage::new();
    let id = store.add_incident(record("inc-77", "Kano", "received", 10));
    assert_eq!(id, "inc-77");
    assert_eq!(store.count(), 1);
    let stored = store.get_incident("inc-77").unwrap();
    assert_eq!(stored.incident_id, "inc-77");
    assert_eq!(stored.farmer_id, "farmer-7");
    assert_eq!(stored.lga, "Kano");
    assert_eq!(stored.state, "Kano State");
    assert_eq!(stored.crop, "maize");
    assert_eq!(stored.category, "pest");
    assert_eq!(stored.description, "armyworm on the lower leaves");
    assert_eq!(stored.reported_at, "2024-05-01T08:00:00Z");
    assert_eq!(stored.enriched.weather_hint, "dry spell");
    assert_eq!(stored.enriched.severity_score, 10);
    assert_eq!(stored.enriched.tags, vec!["armyworm".to_string(), "maize".to_string()]);
    assert_eq!(stored.status, "received");
    assert!(stored.recommendations.is_empty());
    assert!(!stored.resource_request.requested);
    assert!(stored.resource_request.created_at.is_none());
    assert!(stored.audit.is_empty());
    assert_eq!(store.next_id(), 1);
}

#[test]
fn add_incident_keeps_the_coordinates_exactly() {
    let mut store = Storage::new();
    store.add_incident(record("a", "Kano", "received", 10));
    let stored = store.get_incident("a").unwrap();
    assert_eq!(f64::from_bits(stored.geo.lat_bits), 12.0022);
    assert_eq!(f64::from_bits(stored.geo.lon_bits), 8.592);
}

#[test]
fn add_incident_overwrites_a_record_with_the_same_id() {
    let mut store = Storage::new();
    store.add_incident(record("a", "Kano", "received", 10));
    store.add_incident(record("b", "Jos", "received", 20));
    let id = store.add_incident(record("a", "Lagos", "verified", 90));
    assert_eq!(id, "a");
    assert_eq!(store.count(), 2);
    let stored = store.get_incident("a").unwrap();
    assert_eq!(stored.lga, "Lagos");
    assert_eq!(stored.status, "verified");
    assert_eq!(stored.enriched.severity_score, 90);
    assert_eq!(store.get_incident("b").unwrap().lga, "Jos");
}

#[test]
fn add_incident_accepts_an_empty_id() {
    let mut store = Storage::new();
    let id = store.add_incident(record("", "Kano", "received", 10));
    assert_eq!(id, "");
    assert_eq!(store.count(), 1);
    assert_eq!(store.get_incident("").unwrap().lga, "Kano");
}

#[test]
fn update_incident_replaces_an_existing_record() {
    let mut store = Storage::new();
    store.add_incident(record("a", "Kano", "received", 10));
    store.add_incident(record("b", "Jos", "received", 20));
    assert!(store.update_incident("a", record("a", "Lagos", "closed", 30)));
    assert_eq!(store.count(), 2);
    assert_eq!(store.get_incident("a").unwrap().lga, "Lagos");
    assert_eq!(store.get_incident("a").unwrap().status, "closed");
    assert_eq!(store.get_incident("b").unwrap().lga, "Jos");
}

#[test]
fn update_incident_of_unknown_id_does_nothing() {
    let mut store = Storage::new();
    store.add_incident(record("a", "Kano", "received", 10));
    assert!(!store.update_incident("b", record("b", "Jos", "received", 20)));
    assert_eq!(store.count(), 1);
    assert!(store.get_incident("b").is_none());
    assert_eq!(store.get_incident("a").unwrap().lga, "Kano");
    assert!(!Storage::new().update_incident("a", record("a", "Kano", "received", 10)));
}

#[test]
fn update_incident_keeps_the_key_it_was_given() {
    let mut store = Storage::new();
    store.add_incident(record("a", "Kano", "received", 10));
    assert!(store.update_incident("a", record("z", "Jos", "received", 20)));
    assert_eq!(store.count(), 1);
    assert_eq!(store.get_incident("a").unwrap().incident_id, "z");
    assert_eq!(store.get_incident("a").unwrap().lga, "Jos");
    assert!(store.get_incident("z").is_none());
}

#[test]
fn get_incidents_by_lga_matches_exactly() {
    let mut store = Storage::new();
    store.add_incident(record("a", "Kano", "received", 10));
    store.add_incident(record("b", "Jos", "received", 20));
    store.add_incident(record("c", "Kano", "verified", 30));
    store.add_incident(record("d", "kano", "received", 40));
    store.add_incident(record("e", "Kano ", "received", 50));
    let mut ids: Vec<&str> =
        store.get_incidents_by_lga("Kano").iter().map(|r| r.incident_id.as_str()).collect();
    ids.sort();
    assert_eq!(ids, vec!["a", "c"]);
    assert!(store.get_incidents_by_lga("Abuja").is_empty());
    assert!(store.get_incidents_by_lga("").is_empty());
    assert!(store.get_incidents_by_lga("Kan").is_empty());
}

#[test]
fn list_incidents_by_lga_returns_the_matching_records() {
    let mut store = Storage::new();
    store.add_incident(record("a", "Kano", "received", 10));
    store.add_incident(record("b", "Jos", "received", 20));
    store.add_incident(record("c", "Kano", "verified", 30));
    assert_eq!(sorted_ids(&store.list_incidents_by_lga("Kano")), vec!["a", "c"]);
    assert_eq!(sorted_ids(&store.list_incidents_by_lga("Jos")), vec!["b"]);
    assert!(store.list_incidents_by_lga("Abuja").is_empty());
}

#[test]
fn listed_records_are_independent_copies() {
    let mut store = Storage::new();
    let mut given = record("a", "Kano", "received", 10);
    given.audit.push(Audit { event: "imported".to_string(), at: "1".to_string() });
    given.recommendations.push(Recommendation {
        step: "scout the field".to_string(),
        source: "extension".to_string(),
        created_at: "2".to_string(),
    });
    store.add_incident(given);
    let mut listed = store.list_incidents_by_lga("Kano");
    assert_eq!(listed.len(), 1);
    assert_eq!(listed[0].audit.len(), 1);
    assert_eq!(listed[0].audit[0].event, "imported");
    assert_eq!(listed[0].audit[0].at, "1");
    assert_eq!(listed[0].recommendations[0].step, "scout the field");
    assert_eq!(listed[0].recommendations[0].source, "extension");
    assert_eq!(listed[0].recommendations[0].created_at, "2");
    assert_eq!(listed[0].enriched.tags, vec!["armyworm".to_string(), "maize".to_string()]);
    listed[0].lga = "Jos".to_string();
    listed[0].audit.clear();
    listed[0].enriched.tags.push("changed".to_string());
    let stored = store.get_incident("a").unwrap();
    assert_eq!(stored.lga, "Kano");
    assert_eq!(stored.audit.len(), 1);
    assert_eq!(stored.enriched.tags.len(), 2);
}

#[test]
fn get_incidents_by_status_matches_exactly() {
    let mut store = Storage::new();
    store.add_incident(record("a", "Kano", "received", 10));
    store.add_incident(record("b", "Jos", "verified", 20));
    store.add_incident(record("c", "Kano", "received", 30));
    store.add_incident(record("d", "Kano", "Received", 30));
    assert_eq!(sorted_ids(&store.get_incidents_by_status("received")), vec!["a", "c"]);
    assert_eq!(sorted_ids(&store.get_incidents_by_status("verified")), vec!["b"]);
    assert!(store.get_incidents_by_status("closed").is_empty());
    assert!(store.get_incidents_by_status("").is_empty());
}

#[test]
fn high_severity_starts_at_seventy() {
    assert_eq!(HIGH_SEVERITY, 70);
    let mut store = Storage::new();
    store.add_incident(record("at", "Kano", "received", 70));
    store.add_incident(record("below", "Kano", "received", 69));
    assert_eq!(sorted_ids(&store.get_high_severity_incidents()), vec!["at"]);
}

#[test]
fn high_severity_over_the_whole_range_of_scores() {
    let mut store = Storage::new();
    store.add_incident(record("zero", "Kano", "received", 0));
    store.add_incident(record("mid", "Kano", "received", 71));
    store.add_incident(record("top", "Kano", "received", u16::MAX));
    assert_eq!(sorted_ids(&store.get_high_severity_incidents()), vec!["mid", "top"]);
    assert!(Storage::new().get_high_severity_incidents().is_empty());
}

#[test]
fn get_all_incidents_returns_every_record_once() {
    let mut store = Storage::new();
    store.add_incident(record("a", "Kano", "received", 10));
    store.add_incident(record("b", "Jos", "verified", 80));
    store.add_incident(record("a", "Lagos", "closed", 90));
    let all = store.get_all_incidents();
    assert_eq!(sorted_ids(&all), vec!["a", "b"]);
    assert_eq!(all.len(), store.count());
}

#[test]
fn count_follows_the_number_of_distinct_ids() {
    let mut store = Storage::new();
    for n in 0..50u64 {
        store.add_incident(record(&format!("id-{}", n % 20), "Kano", "received", 10));
    }
    assert_eq!(store.count(), 20);
}

#[test]
fn scan_by_applies_each_filter() {
    let mut store = Storage::new();
    store.add_incident(record("a", "Kano", "received", 10));
    store.add_incident(record("b", "Jos", "verified", 80));
    store.add_incident(record("c", "Kano", "verified", 70));
    assert_eq!(sorted_ids(&store.scan_by(&Filter::All)), vec!["a", "b", "c"]);
    assert_eq!(sorted_ids(&store.scan_by(&Filter::Lga("Kano"))), vec!["a", "c"]);
    assert_eq!(sorted_ids(&store.scan_by(&Filter::Status("verified"))), vec!["b", "c"]);
    assert_eq!(sorted_ids(&store.scan_by(&Filter::HighSeverity)), vec!["b", "c"]);
    assert!(store.scan_by(&Filter::Lga("")).is_empty());
}

#[test]
fn filter_test_decides_on_one_record() {
    let r = record("a", "Kano", "received", 69);
    assert!(Filter::All.test(&r));
    assert!(Filter::Lga("Kano").test(&r));
    assert!(!Filter::Lga("Jos").test(&r));
    assert!(Filter::Status("received").test(&r));
    assert!(!Filter::Status("verified").test(&r));
    assert!(!Filter::HighSeverity.test(&r));
    assert!(Filter::HighSeverity.test(&record("b", "Kano", "received", 70)));
}

#[test]
fn cloned_record_equals_its_source_field_by_field() {
    let mut given = record("a", "Kano", "received", 10);
    given.resource_request = ResourceRequest {
        requested: true,
        type_: "seed".to_string(),
        notes: "two bags".to_string(),
        created_at: Some("9".to_string()),
    };
    let copy = given.clone();
    assert_eq!(copy.incident_id, given.incident_id);
    assert_eq!(copy.geo.lat_bits, given.geo.lat_bits);
    assert_eq!(copy.geo.lon_bits, given.geo.lon_bits);
    assert_eq!(copy.enriched.tags, given.enriched.tags);
    assert!(copy.resource_request.requested);
    assert_eq!(copy.resource_request.type_, "seed");
    assert_eq!(copy.resource_request.notes, "two bags");
    assert_eq!(copy.resource_request.created_at, Some("9".to_string()));
}
