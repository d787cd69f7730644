//! The incident record and its parts, each with the mathematical value that
//! contracts speak of.

use vstd::prelude::*;

verus! {

/// Where an incident was reported. Each coordinate is held as the bit
/// pattern of its IEEE 754 double-precision value, so that the record can be
/// stored and copied exactly.
#[derive(Clone, Copy)]
pub struct Geo {
    pub lat_bits: u64,
    pub lon_bits: u64,
}

/// One step of advice attached to an incident.
pub struct Recommendation {
    pub step: String,
    pub source: String,
    pub created_at: String,
}

/// The value of a [`Recommendation`].
#[verifier::ext_equal]
pub struct RecommendationView {
    pub step: Seq<char>,
    pub source: Seq<char>,
    pub created_at: Seq<char>,
}

impl View for Recommendation {
    type V = RecommendationView;

    open spec fn view(&self) -> RecommendationView {
        RecommendationView {
            step: self.step@,
            source: self.source@,
            created_at: self.created_at@,
        }
    }
}

impl DeepView for Recommendation {
    type V = RecommendationView;

    open spec fn deep_view(&self) -> RecommendationView {
        self@
    }
}

impl Clone for Recommendation {
    fn clone(&self) -> (copy: Self)
        ensures
            copy@ == self@,
    {
        Recommendation {
            step: self.step.clone(),
            source: self.source.clone(),
            created_at: self.created_at.clone(),
        }
    }
}

/// One entry of an incident's history: what happened, and when.
pub struct Audit {
    pub event: String,
    pub at: String,
}

/// The value of an [`Audit`] entry.
#[verifier::ext_equal]
pub struct AuditView {
    pub event: Seq<char>,
    pub at: Seq<char>,
}

impl View for Audit {
    type V = AuditView;

    open spec fn view(&self) -> AuditView {
        AuditView { event: self.event@, at: self.at@ }
    }
}

impl DeepView for Audit {
    type V = AuditView;

    open spec fn deep_view(&self) -> AuditView {
        self@
    }
}

impl Clone for Audit {
    fn clone(&self) -> (copy: Self)
        ensures
            copy@ == self@,
    {
        Audit { event: self.event.clone(), at: self.at.clone() }
    }
}

/// Annotations derived for an incident by an enrichment step outside this
/// library.
pub struct Enriched {
    pub weather_hint: String,
    pub severity_score: u16,
    pub tags: Vec<String>,
}

/// The value of an [`Enriched`] annotation.
#[verifier::ext_equal]
pub struct EnrichedView {
    pub weather_hint: Seq<char>,
    pub severity_score: u16,
    pub tags: Seq<Seq<char>>,
}

impl View for Enriched {
    type V = EnrichedView;

    open spec fn view(&self) -> EnrichedView {
        EnrichedView {
            weather_hint: self.weather_hint@,
            severity_score: self.severity_score,
            tags: self.tags.deep_view(),
        }
    }
}

impl Clone for Enriched {
    fn clone(&self) -> (copy: Self)
        ensures
            copy@ == self@,
    {
        let tags = self.tags.clone();
        assert(tags.deep_view() =~= self.tags.deep_view());
        Enriched {
            weather_hint: self.weather_hint.clone(),
            severity_score: self.severity_score,
            tags,
        }
    }
}

/// The single request for assistance that an incident carries.
pub struct ResourceRequest {
    pub requested: bool,
    pub type_: String,
    pub notes: String,
    pub created_at: Option<String>,
}

/// The value of a [`ResourceRequest`].
#[verifier::ext_equal]
pub struct ResourceRequestView {
    pub requested: bool,
    pub type_: Seq<char>,
    pub notes: Seq<char>,
    pub created_at: Option<Seq<char>>,
}

impl View for ResourceRequest {
    type V = ResourceRequestView;

    open spec fn view(&self) -> ResourceRequestView {
        ResourceRequestView {
            requested: self.requested,
            type_: self.type_@,
            notes: self.notes@,
            created_at: self.created_at.deep_view(),
        }
    }
}

impl Clone for ResourceRequest {
    fn clone(&self) -> (copy: Self)
        ensures
            copy@ == self@,
    {
        ResourceRequest {
            requested: self.requested,
            type_: self.type_.clone(),
            notes: self.notes.clone(),
            created_at: self.created_at.clone(),
        }
    }
}

/// A reported agricultural problem with its location, classification,
/// status and history.
pub struct Incident {
    pub incident_id: String,
    pub farmer_id: String,
    pub lga: String,
    pub state: String,
    pub geo: Geo,
    pub crop: String,
    pub category: String,
    pub description: String,
    pub reported_at: String,
    pub enriched: Enriched,
    pub status: String,
    pub recommendations: Vec<Recommendation>,
    pub resource_request: ResourceRequest,
    pub audit: Vec<Audit>,
}

/// The value of an [`Incident`].
#[verifier::ext_equal]
pub struct IncidentView {
    pub incident_id: Seq<char>,
    pub farmer_id: Seq<char>,
    pub lga: Seq<char>,
    pub state: Seq<char>,
    pub geo: Geo,
    pub crop: Seq<char>,
    pub category: Seq<char>,
    pub description: Seq<char>,
    pub reported_at: Seq<char>,
    pub enriched: EnrichedView,
    pub status: Seq<char>,
    pub recommendations: Seq<RecommendationView>,
    pub resource_request: ResourceRequestView,
    pub audit: Seq<AuditView>,
}

impl View for Incident {
    type V = IncidentView;

    open spec fn view(&self) -> IncidentView {
        IncidentView {
            incident_id: self.incident_id@,
            farmer_id: self.farmer_id@,
            lga: self.lga@,
            state: self.state@,
            geo: self.geo,
            crop: self.crop@,
            category: self.category@,
            description: self.description@,
            reported_at: self.reported_at@,
            enriched: self.enriched@,
            status: self.status@,
            recommendations: self.recommendations.deep_view(),
            resource_request: self.resource_request@,
            audit: self.audit.deep_view(),
        }
    }
}

impl DeepView for Incident {
    type V = IncidentView;

    open spec fn deep_view(&self) -> IncidentView {
        self@
    }
}

impl Clone for Incident {
    fn clone(&self) -> (copy: Self)
        ensures
            copy@ == self@,
    {
        let recommendations = self.recommendations.clone();
        assert(recommendations.deep_view() =~= self.recommendations.deep_view());
        let audit = self.audit.clone();
        assert(audit.deep_view() =~= self.audit.deep_view());
        Incident {
            incident_id: self.incident_id.clone(),
            farmer_id: self.farmer_id.clone(),
            lga: self.lga.clone(),
            state: self.state.clone(),
            geo: self.geo,
            crop: self.crop.clone(),
            category: self.category.clone(),
            description: self.description.clone(),
            reported_at: self.reported_at.clone(),
            enriched: self.enriched.clone(),
            status: self.status.clone(),
            recommendations,
            resource_request: self.resource_request.clone(),
            audit,
        }
    }
}

} // verus!
