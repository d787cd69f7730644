//! The store itself: records kept under unique identifiers, and the counter
//! from which identifiers are minted.

use crate::model::{lists_under, StorageView, HIGH_SEVERITY};
use crate::text::{incident_id_string, str_eq};
use crate::types::{Incident, IncidentView};
use vstd::prelude::*;

verus! {

/// A record under the identifier it is stored by.
struct Entry {
    key: String,
    record: Incident,
}

/// The identifiers of `entries`, in their order.
spec fn keys_of(entries: Seq<Entry>) -> Seq<Seq<char>> {
    Seq::new(entries.len(), |i: int| entries[i].key@)
}

/// The mapping that `entries` stand for.
spec fn records_of(entries: Seq<Entry>) -> Map<Seq<char>, IncidentView> {
    Map::new(
        |id: Seq<char>| keys_of(entries).contains(id),
        |id: Seq<char>| entries[keys_of(entries).index_of(id)].record@,
    )
}

/// Under unique identifiers, each entry is what the mapping holds for its
/// identifier.
proof fn lemma_record_at(entries: Seq<Entry>, i: int)
    requires
        keys_of(entries).no_duplicates(),
        0 <= i < entries.len(),
    ensures
        records_of(entries).contains_key(entries[i].key@),
        records_of(entries)[entries[i].key@] == entries[i].record@,
{
    let keys = keys_of(entries);
    assert(keys[i] == entries[i].key@);
    assert(keys.contains(entries[i].key@));
    assert(keys[keys.index_of(entries[i].key@)] == keys[i]);
}

/// Every identifier of the mapping is that of some entry.
proof fn lemma_key_position(entries: Seq<Entry>, id: Seq<char>) -> (i: int)
    requires
        records_of(entries).contains_key(id),
    ensures
        0 <= i < entries.len(),
        entries[i].key@ == id,
{
    let keys = keys_of(entries);
    assert(keys.contains(id));
    let i = keys.index_of(id);
    assert(keys[i] == id);
    i
}

/// The mapping has finitely many identifiers: as many as there are entries,
/// where no two entries share one.
proof fn lemma_records_len(entries: Seq<Entry>)
    ensures
        records_of(entries).dom().finite(),
        keys_of(entries).no_duplicates() ==> records_of(entries).len() == entries.len(),
{
    let keys = keys_of(entries);
    assert(records_of(entries).dom() =~= keys.to_set());
    vstd::seq_lib::seq_to_set_is_finite(keys);
    if keys.no_duplicates() {
        keys.unique_seq_to_set();
    }
}

/// Whether `at` is where `id` is stored among `entries`, or nowhere if it is
/// not stored.
spec fn is_position(entries: Seq<Entry>, id: Seq<char>, at: Option<usize>) -> bool {
    match at {
        Some(i) => i < entries.len() && entries[i as int].key@ == id,
        None => !keys_of(entries).contains(id),
    }
}

/// Position of the entry stored under `id`.
fn position_of(entries: &Vec<Entry>, id: &str) -> (at: Option<usize>)
    ensures
        is_position(entries@, id@, at),
{
    let mut i: usize = 0;
    while i < entries.len()
        invariant
            i <= entries.len(),
            forall|j: int| 0 <= j < i ==> entries[j].key@ != id@,
        decreases entries.len() - i,
    {
        if str_eq(entries[i].key.as_str(), id) {
            return Some(i);
        }
        i = i + 1;
    }
    assert forall|j: int| 0 <= j < keys_of(entries@).len() implies keys_of(entries@)[j] != id@ by {
        assert(keys_of(entries@)[j] == entries[j].key@);
    }
    None
}

/// Stores `record` under `key`: at `at` in place of what was there, or as a
/// new entry.
fn place(entries: &mut Vec<Entry>, at: Option<usize>, key: String, record: Incident)
    requires
        keys_of(old(entries)@).no_duplicates(),
        is_position(old(entries)@, key@, at),
    ensures
        keys_of(final(entries)@).no_duplicates(),
        records_of(final(entries)@) == records_of(old(entries)@).insert(key@, record@),
{
    let ghost before = entries@;
    let ghost id = key@;
    let ghost value = record@;
    match at {
        Some(i) => {
            entries.set(i, Entry { key, record });
        },
        None => {
            entries.push(Entry { key, record });
        },
    }
    let ghost after = entries@;
    let ghost slot: int = match at {
        Some(i) => i as int,
        None => before.len() as int,
    };
    proof {
        assert(after.len() > slot >= 0);
        assert(after[slot].key@ == id && after[slot].record@ == value);
        assert forall|j: int| 0 <= j < after.len() && j != slot implies after[j] == before[j]
            && keys_of(before)[j] != id by {
            assert(keys_of(before)[j] == before[j].key@);
            if at is Some {
                assert(keys_of(before)[slot] == id);
            } else {
                assert(!keys_of(before).contains(id));
            }
        }
        assert forall|a: int, b: int|
            0 <= a < after.len() && 0 <= b < after.len() && a != b implies keys_of(after)[a]
            != keys_of(after)[b] by {
            if a != slot && b != slot {
                assert(keys_of(before)[a] != keys_of(before)[b]);
            }
        }
        assert forall|k: Seq<char>|
            records_of(after).contains_key(k) <==> records_of(before).insert(
                id,
                value,
            ).contains_key(k) by {
            if records_of(after).contains_key(k) {
                let j = lemma_key_position(after, k);
                if j != slot {
                    lemma_record_at(before, j);
                }
            }
            if records_of(before).contains_key(k) {
                let j = lemma_key_position(before, k);
                if j != slot {
                    lemma_record_at(after, j);
                } else {
                    lemma_record_at(after, slot);
                }
            }
            if k == id {
                lemma_record_at(after, slot);
            }
        }
        assert forall|k: Seq<char>| records_of(after).contains_key(k) implies records_of(after)[k]
            == records_of(before).insert(id, value)[k] by {
            let j = lemma_key_position(after, k);
            lemma_record_at(after, j);
            if j != slot {
                lemma_record_at(before, j);
            }
        }
        assert(records_of(after) =~= records_of(before).insert(id, value));
    }
}

/// What a scan of the store looks for.
pub enum Filter<'a> {
    /// Every record.
    All,
    /// The records of one locality, matched exactly.
    Lga(&'a str),
    /// The records in one status, matched exactly.
    Status(&'a str),
    /// The records whose severity score reaches [`HIGH_SEVERITY`].
    HighSeverity,
}

impl<'a> Filter<'a> {
    /// Whether the filter accepts `record`.
    pub open spec fn accepts(self, record: IncidentView) -> bool {
        match self {
            Filter::All => true,
            Filter::Lga(lga) => record.lga == lga@,
            Filter::Status(status) => record.status == status@,
            Filter::HighSeverity => record.is_high_severity(),
        }
    }

    /// The filter as a predicate on records.
    pub open spec fn wanted(self) -> spec_fn(IncidentView) -> bool {
        |record: IncidentView| self.accepts(record)
    }

    /// Decides whether the filter accepts `record`.
    pub fn test(&self, record: &Incident) -> (accepted: bool)
        ensures
            accepted == self.accepts(record@),
    {
        match self {
            Filter::All => true,
            Filter::Lga(lga) => str_eq(record.lga.as_str(), lga),
            Filter::Status(status) => str_eq(record.status.as_str(), status),
            Filter::HighSeverity => record.enriched.severity_score >= HIGH_SEVERITY,
        }
    }
}

/// The records among `entries` that `filter` accepts, by reference.
fn pick<'a>(entries: &'a Vec<Entry>, filter: &Filter) -> (found: Vec<&'a Incident>)
    requires
        keys_of(entries@).no_duplicates(),
    ensures
        exists|ids: Seq<Seq<char>>|
            lists_under(records_of(entries@), filter.wanted(), ids, found.deep_view()),
{
    let mut found: Vec<&Incident> = Vec::new();
    let ghost mut picked: Seq<int> = Seq::empty();
    let mut i: usize = 0;
    while i < entries.len()
        invariant
            i <= entries.len(),
            picked.len() == found.len(),
            forall|j: int|
                0 <= j < picked.len() ==> {
                    &&& 0 <= #[trigger] picked[j] < i
                    &&& filter.accepts(entries[picked[j]].record@)
                    &&& found[j]@ == entries[picked[j]].record@
                },
            forall|j: int, k: int| 0 <= j < k < picked.len() ==> picked[j] < picked[k],
            forall|e: int|
                0 <= e < i && filter.accepts(#[trigger] entries[e].record@) ==> picked.contains(e),
        decreases entries.len() - i,
    {
        if filter.test(&entries[i].record) {
            found.push(&entries[i].record);
            proof {
                let ghost earlier = picked;
                picked = picked.push(i as int);
                assert forall|e: int|
                    0 <= e < i + 1 && filter.accepts(
                        #[trigger] entries[e].record@,
                    ) implies picked.contains(e) by {
                    if e < i {
                        assert(earlier.contains(e));
                        let j = earlier.index_of(e);
                        assert(picked[j] == e);
                    } else {
                        assert(picked[earlier.len() as int] == e);
                    }
                }
            }
        }
        i = i + 1;
    }
    proof {
        let ids = Seq::new(picked.len(), |j: int| entries[picked[j]].key@);
        let incidents = records_of(entries@);
        let listed = found.deep_view();
        assert forall|a: int, b: int|
            0 <= a < ids.len() && 0 <= b < ids.len() && a != b implies ids[a] != ids[b] by {
            assert(picked[a] != picked[b]);
            assert(keys_of(entries@)[picked[a]] != keys_of(entries@)[picked[b]]);
        }
        assert forall|j: int| 0 <= j < ids.len() implies {
            &&& incidents.contains_key(#[trigger] ids[j])
            &&& filter.wanted()(incidents[ids[j]])
            &&& listed[j] == incidents[ids[j]]
        } by {
            lemma_record_at(entries@, picked[j]);
        }
        assert forall|id: Seq<char>|
            #[trigger] incidents.contains_key(id) && filter.wanted()(
                incidents[id],
            ) implies ids.contains(id) by {
            let e = lemma_key_position(entries@, id);
            lemma_record_at(entries@, e);
            assert(picked.contains(e));
            let j = picked.index_of(e);
            assert(ids[j] == id);
        }
        assert(lists_under(incidents, filter.wanted(), ids, listed));
    }
    found
}

/// Independent copies of the records that `found` refers to.
fn copies(found: &Vec<&Incident>) -> (out: Vec<Incident>)
    ensures
        out.deep_view() == found.deep_view(),
{
    let mut out: Vec<Incident> = Vec::new();
    let mut i: usize = 0;
    while i < found.len()
        invariant
            i <= found.len(),
            out.len() == i,
            forall|j: int| 0 <= j < i ==> out[j]@ == found[j]@,
        decreases found.len() - i,
    {
        out.push(found[i].clone());
        i = i + 1;
    }
    assert(out.deep_view() =~= found.deep_view());
    out
}

/// The incident store.
pub struct Storage {
    entries: Vec<Entry>,
    next_id: u64,
}

impl View for Storage {
    type V = StorageView;

    closed spec fn view(&self) -> StorageView {
        StorageView { incidents: records_of(self.entries@), next_id: self.next_id as nat }
    }
}

impl Storage {
    /// No two entries share an identifier.
    #[verifier::type_invariant]
    spec fn unique_ids(&self) -> bool {
        keys_of(self.entries@).no_duplicates()
    }

    /// A store holds finitely many records.
    pub proof fn lemma_finite(self)
        ensures
            self@.incidents.dom().finite(),
    {
        lemma_records_len(self.entries@);
    }

    /// Stores `record` under `key`, whose place among the entries is `at`.
    fn put(&mut self, at: Option<usize>, key: String, record: Incident)
        requires
            is_position(old(self).entries@, key@, at),
        ensures
            final(self)@ == old(self)@.with_record(key@, record@),
    {
        proof {
            use_type_invariant(&*self);
        }
        let mut entries: Vec<Entry> = Vec::new();
        std::mem::swap(&mut entries, &mut self.entries);
        place(&mut entries, at, key, record);
        self.entries = entries;
    }

    /// An empty store whose first minted identifier is number one.
    pub fn new() -> (store: Storage)
        ensures
            store@ == StorageView::empty(),
    {
        let store = Storage { entries: Vec::new(), next_id: 1 };
        assert(store@.incidents =~= Map::empty());
        store
    }

    /// The counter value of the next minted identifier.
    pub fn next_id(&self) -> (n: u64)
        ensures
            n == self@.next_id,
    {
        self.next_id
    }

    /// Mints the next identifier and advances the counter. The stored
    /// records play no part. The counter must have a successor.
    pub fn generate_incident_id(&mut self) -> (id: String)
        requires
            old(self)@.next_id < u64::MAX,
        ensures
            id@ == old(self)@.minted_id(),
            final(self)@ == old(self)@.after_minting(),
    {
        proof {
            use_type_invariant(&*self);
        }
        let id = incident_id_string(self.next_id);
        self.next_id = self.next_id + 1;
        id
    }

    /// Stores `incident` under its own identifier, silently replacing a
    /// record already kept under it, and returns that identifier.
    pub fn add_incident(&mut self, incident: Incident) -> (id: String)
        ensures
            id@ == incident@.incident_id,
            final(self)@ == old(self)@.add_incident(incident@),
    {
        proof {
            use_type_invariant(&*self);
        }
        let id = incident.incident_id.clone();
        let at = position_of(&self.entries, id.as_str());
        self.put(at, id.clone(), incident);
        id
    }

    /// The record kept under `incident_id`, if there is one.
    pub fn get_incident(&self, incident_id: &str) -> (found: Option<&Incident>)
        ensures
            match found {
                Some(record) => self@.incidents.contains_key(incident_id@) && record@
                    == self@.incidents[incident_id@],
                None => !self@.incidents.contains_key(incident_id@),
            },
    {
        proof {
            use_type_invariant(self);
        }
        match position_of(&self.entries, incident_id) {
            Some(i) => {
                proof {
                    lemma_record_at(self.entries@, i as int);
                }
                Some(&self.entries[i].record)
            },
            None => None,
        }
    }

    /// Replaces the record kept under `incident_id` by `incident` and says
    /// whether it did: where nothing is kept under that identifier, nothing
    /// changes.
    pub fn update_incident(&mut self, incident_id: &str, incident: Incident) -> (replaced: bool)
        ensures
            replaced == old(self)@.incidents.contains_key(incident_id@),
            final(self)@ == old(self)@.update_incident(incident_id@, incident@),
    {
        proof {
            use_type_invariant(&*self);
        }
        match position_of(&self.entries, incident_id) {
            Some(i) => {
                proof {
                    lemma_record_at(self.entries@, i as int);
                }
                self.put(Some(i), incident_id.to_owned(), incident);
                true
            },
            None => false,
        }
    }

    /// The stored records that `filter` accepts, by reference.
    fn select(&self, filter: &Filter) -> (found: Vec<&Incident>)
        ensures
            self@.selects(filter.wanted(), found.deep_view()),
    {
        proof {
            use_type_invariant(self);
        }
        let found = pick(&self.entries, filter);
        proof {
            let ids = choose|ids: Seq<Seq<char>>|
                lists_under(records_of(self.entries@), filter.wanted(), ids, found.deep_view());
            assert(lists_under(self@.incidents, filter.wanted(), ids, found.deep_view()));
        }
        found
    }

    /// Independent copies of the stored records that `filter` accepts, each
    /// once, in no particular order.
    pub fn scan_by(&self, filter: &Filter) -> (found: Vec<Incident>)
        ensures
            self@.selects(filter.wanted(), found.deep_view()),
    {
        copies(&self.select(filter))
    }

    /// The stored records whose locality is exactly `lga`, by reference,
    /// each once, in no particular order.
    pub fn get_incidents_by_lga(&self, lga: &str) -> (found: Vec<&Incident>)
        ensures
            self@.selects(Filter::Lga(lga).wanted(), found.deep_view()),
    {
        self.select(&Filter::Lga(lga))
    }

    /// Copies of the stored records whose locality is exactly `lga`.
    pub fn list_incidents_by_lga(&self, lga: &str) -> (found: Vec<Incident>)
        ensures
            self@.selects(Filter::Lga(lga).wanted(), found.deep_view()),
    {
        copies(&self.get_incidents_by_lga(lga))
    }

    /// Copies of the stored records whose status is exactly `status`.
    pub fn get_incidents_by_status(&self, status: &str) -> (found: Vec<Incident>)
        ensures
            self@.selects(Filter::Status(status).wanted(), found.deep_view()),
    {
        self.scan_by(&Filter::Status(status))
    }

    /// Copies of the stored records whose severity score is at least
    /// [`HIGH_SEVERITY`].
    pub fn get_high_severity_incidents(&self) -> (found: Vec<Incident>)
        ensures
            self@.selects(Filter::HighSeverity.wanted(), found.deep_view()),
    {
        self.scan_by(&Filter::HighSeverity)
    }

    /// Copies of all stored records.
    pub fn get_all_incidents(&self) -> (found: Vec<Incident>)
        ensures
            self@.selects(Filter::All.wanted(), found.deep_view()),
    {
        self.scan_by(&Filter::All)
    }

    /// Number of stored records.
    pub fn count(&self) -> (n: usize)
        ensures
            self@.incidents.dom().finite(),
            n == self@.incidents.len(),
    {
        proof {
            use_type_invariant(self);
            lemma_records_len(self.entries@);
        }
        self.entries.len()
    }
}

} // verus!
