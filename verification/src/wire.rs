//! The text names by which enumerations travel over the wire, and reading
//! them back.

use vstd::prelude::*;
use crate::config::RecallPlanningProfile;
use crate::error::{Error, ErrorKind};
use crate::model::{
    AffectiveAnnotationProvenance, EpisodeContinuityState, LineageRelationKind,
    MemoryHistoricalState, MemoryQualityState, MemoryRecordKind, MemoryTrustLevel,
};
use crate::query::{
    RecallCandidateSource, RecallHistoricalMode, RecallPlannerStage, RecallTemporalOrder,
};
use crate::text::text_eq;

verus! {

/// An invalid request naming the value that was not understood.
fn unknown_value(prefix: &str, value: &str) -> (r: Error)
    ensures
        r.spec_is(ErrorKind::InvalidRequest, prefix@ + value@),
{
    let mut message = String::from_str(prefix);
    message.append(value);
    Error::InvalidRequest(message)
}

/// The wire name of a trust level.
pub open spec fn spec_trust_level_name(value: MemoryTrustLevel) -> Seq<char> {
    match value {
        MemoryTrustLevel::Untrusted => "untrusted"@,
        MemoryTrustLevel::Observed => "observed"@,
        MemoryTrustLevel::Derived => "derived"@,
        MemoryTrustLevel::Verified => "verified"@,
        MemoryTrustLevel::Pinned => "pinned"@,
    }
}

/// The trust level a wire name stands for; the empty name stands for the default.
pub open spec fn spec_parse_trust_level(s: Seq<char>) -> Option<MemoryTrustLevel> {
    if s == ""@ || s == "derived"@ {
        Some(MemoryTrustLevel::Derived)
    } else if s == "untrusted"@ {
        Some(MemoryTrustLevel::Untrusted)
    } else if s == "observed"@ {
        Some(MemoryTrustLevel::Observed)
    } else if s == "verified"@ {
        Some(MemoryTrustLevel::Verified)
    } else if s == "pinned"@ {
        Some(MemoryTrustLevel::Pinned)
    } else {
        None
    }
}

/// Reads a trust level from its wire name; an unknown name is an invalid
/// request.
pub fn trust_level_from_proto(value: &str) -> (r: Result<MemoryTrustLevel, Error>)
    ensures
        match spec_parse_trust_level(value@) {
            Some(v) => r == Ok::<MemoryTrustLevel, Error>(v),
            None => r matches Err(e) && e.spec_is(ErrorKind::InvalidRequest, "unknown trust level: "@ + value@),
        },
{
    if text_eq(value, "") || text_eq(value, "derived") {
        Ok(MemoryTrustLevel::Derived)
    } else if text_eq(value, "untrusted") {
        Ok(MemoryTrustLevel::Untrusted)
    } else if text_eq(value, "observed") {
        Ok(MemoryTrustLevel::Observed)
    } else if text_eq(value, "verified") {
        Ok(MemoryTrustLevel::Verified)
    } else if text_eq(value, "pinned") {
        Ok(MemoryTrustLevel::Pinned)
    } else {
        Err(unknown_value("unknown trust level: ", value))
    }
}

/// The wire name of a trust level.
pub fn trust_level_to_proto(value: MemoryTrustLevel) -> (r: String)
    ensures
        r@ == spec_trust_level_name(value),
{
    let name = match value {
        MemoryTrustLevel::Untrusted => "untrusted",
        MemoryTrustLevel::Observed => "observed",
        MemoryTrustLevel::Derived => "derived",
        MemoryTrustLevel::Verified => "verified",
        MemoryTrustLevel::Pinned => "pinned",
    };
    String::from_str(name)
}

/// Reading the wire name of a trust level gives it back, and no two
/// trust levels share a wire name.
pub proof fn lemma_trust_level_round_trip(value: MemoryTrustLevel)
    ensures
        spec_parse_trust_level(spec_trust_level_name(value)) == Some(value),
{
    reveal_strlit("");
    reveal_strlit("derived");
    reveal_strlit("observed");
    reveal_strlit("pinned");
    reveal_strlit("untrusted");
    reveal_strlit("verified");
    assert(""@.len() != "derived"@.len());
    assert(""@.len() != "observed"@.len());
    assert(""@.len() != "pinned"@.len());
    assert(""@.len() != "untrusted"@.len());
    assert(""@.len() != "verified"@.len());
    assert("derived"@.len() != "observed"@.len());
    assert("derived"@.len() != "pinned"@.len());
    assert("derived"@.len() != "untrusted"@.len());
    assert("derived"@.len() != "verified"@.len());
    assert("observed"@.len() != "pinned"@.len());
    assert("observed"@.len() != "untrusted"@.len());
    assert("observed"@[0] != "verified"@[0]);
    assert("pinned"@.len() != "untrusted"@.len());
    assert("pinned"@.len() != "verified"@.len());
    assert("untrusted"@.len() != "verified"@.len());
}

/// The wire name of a record kind.
pub open spec fn spec_record_kind_name(value: MemoryRecordKind) -> Seq<char> {
    match value {
        MemoryRecordKind::Episodic => "episodic"@,
        MemoryRecordKind::Summary => "summary"@,
        MemoryRecordKind::Fact => "fact"@,
        MemoryRecordKind::Preference => "preference"@,
        MemoryRecordKind::Task => "task"@,
        MemoryRecordKind::Artifact => "artifact"@,
        MemoryRecordKind::Hypothesis => "hypothesis"@,
    }
}

/// The record kind a wire name stands for.
pub open spec fn spec_parse_record_kind(s: Seq<char>) -> Option<MemoryRecordKind> {
    if s == "episodic"@ {
        Some(MemoryRecordKind::Episodic)
    } else if s == "summary"@ {
        Some(MemoryRecordKind::Summary)
    } else if s == "fact"@ {
        Some(MemoryRecordKind::Fact)
    } else if s == "preference"@ {
        Some(MemoryRecordKind::Preference)
    } else if s == "task"@ {
        Some(MemoryRecordKind::Task)
    } else if s == "artifact"@ {
        Some(MemoryRecordKind::Artifact)
    } else if s == "hypothesis"@ {
        Some(MemoryRecordKind::Hypothesis)
    } else {
        None
    }
}

/// Reads a record kind from its wire name; an unknown name is an invalid
/// request.
pub fn record_kind_from_proto(value: &str) -> (r: Result<MemoryRecordKind, Error>)
    ensures
        match spec_parse_record_kind(value@) {
            Some(v) => r == Ok::<MemoryRecordKind, Error>(v),
            None => r matches Err(e) && e.spec_is(ErrorKind::InvalidRequest, "unknown record kind: "@ + value@),
        },
{
    if text_eq(value, "episodic") {
        Ok(MemoryRecordKind::Episodic)
    } else if text_eq(value, "summary") {
        Ok(MemoryRecordKind::Summary)
    } else if text_eq(value, "fact") {
        Ok(MemoryRecordKind::Fact)
    } else if text_eq(value, "preference") {
        Ok(MemoryRecordKind::Preference)
    } else if text_eq(value, "task") {
        Ok(MemoryRecordKind::Task)
    } else if text_eq(value, "artifact") {
        Ok(MemoryRecordKind::Artifact)
    } else if text_eq(value, "hypothesis") {
        Ok(MemoryRecordKind::Hypothesis)
    } else {
        Err(unknown_value("unknown record kind: ", value))
    }
}

/// The wire name of a record kind.
pub fn record_kind_to_proto(value: MemoryRecordKind) -> (r: String)
    ensures
        r@ == spec_record_kind_name(value),
{
    let name = match value {
        MemoryRecordKind::Episodic => "episodic",
        MemoryRecordKind::Summary => "summary",
        MemoryRecordKind::Fact => "fact",
        MemoryRecordKind::Preference => "preference",
        MemoryRecordKind::Task => "task",
        MemoryRecordKind::Artifact => "artifact",
        MemoryRecordKind::Hypothesis => "hypothesis",
    };
    String::from_str(name)
}

/// Reading the wire name of a record kind gives it back, and no two
/// record kinds share a wire name.
pub proof fn lemma_record_kind_round_trip(value: MemoryRecordKind)
    ensures
        spec_parse_record_kind(spec_record_kind_name(value)) == Some(value),
{
    reveal_strlit("");
    reveal_strlit("artifact");
    reveal_strlit("episodic");
    reveal_strlit("fact");
    reveal_strlit("hypothesis");
    reveal_strlit("preference");
    reveal_strlit("summary");
    reveal_strlit("task");
    assert(""@.len() != "artifact"@.len());
    assert(""@.len() != "episodic"@.len());
    assert(""@.len() != "fact"@.len());
    assert(""@.len() != "hypothesis"@.len());
    assert(""@.len() != "preference"@.len());
    assert(""@.len() != "summary"@.len());
    assert(""@.len() != "task"@.len());
    assert("artifact"@[0] != "episodic"@[0]);
    assert("artifact"@.len() != "fact"@.len());
    assert("artifact"@.len() != "hypothesis"@.len());
    assert("artifact"@.len() != "preference"@.len());
    assert("artifact"@.len() != "summary"@.len());
    assert("artifact"@.len() != "task"@.len());
    assert("episodic"@.len() != "fact"@.len());
    assert("episodic"@.len() != "hypothesis"@.len());
    assert("episodic"@.len() != "preference"@.len());
    assert("episodic"@.len() != "summary"@.len());
    assert("episodic"@.len() != "task"@.len());
    assert("fact"@.len() != "hypothesis"@.len());
    assert("fact"@.len() != "preference"@.len());
    assert("fact"@.len() != "summary"@.len());
    assert("fact"@[0] != "task"@[0]);
    assert("hypothesis"@[0] != "preference"@[0]);
    assert("hypothesis"@.len() != "summary"@.len());
    assert("hypothesis"@.len() != "task"@.len());
    assert("preference"@.len() != "summary"@.len());
    assert("preference"@.len() != "task"@.len());
    assert("summary"@.len() != "task"@.len());
}

/// The wire name of a quality state.
pub open spec fn spec_quality_state_name(value: MemoryQualityState) -> Seq<char> {
    match value {
        MemoryQualityState::Draft => "draft"@,
        MemoryQualityState::Active => "active"@,
        MemoryQualityState::Verified => "verified"@,
        MemoryQualityState::Archived => "archived"@,
        MemoryQualityState::Suppressed => "suppressed"@,
        MemoryQualityState::Deleted => "deleted"@,
    }
}

/// The quality state a wire name stands for.
pub open spec fn spec_parse_quality_state(s: Seq<char>) -> Option<MemoryQualityState> {
    if s == "draft"@ {
        Some(MemoryQualityState::Draft)
    } else if s == "active"@ {
        Some(MemoryQualityState::Active)
    } else if s == "verified"@ {
        Some(MemoryQualityState::Verified)
    } else if s == "archived"@ {
        Some(MemoryQualityState::Archived)
    } else if s == "suppressed"@ {
        Some(MemoryQualityState::Suppressed)
    } else if s == "deleted"@ {
        Some(MemoryQualityState::Deleted)
    } else {
        None
    }
}

/// Reads a quality state from its wire name; an unknown name is an invalid
/// request.
pub fn quality_state_from_proto(value: &str) -> (r: Result<MemoryQualityState, Error>)
    ensures
        match spec_parse_quality_state(value@) {
            Some(v) => r == Ok::<MemoryQualityState, Error>(v),
            None => r matches Err(e) && e.spec_is(ErrorKind::InvalidRequest, "unknown quality state: "@ + value@),
        },
{
    if text_eq(value, "draft") {
        Ok(MemoryQualityState::Draft)
    } else if text_eq(value, "active") {
        Ok(MemoryQualityState::Active)
    } else if text_eq(value, "verified") {
        Ok(MemoryQualityState::Verified)
    } else if text_eq(value, "archived") {
        Ok(MemoryQualityState::Archived)
    } else if text_eq(value, "suppressed") {
        Ok(MemoryQualityState::Suppressed)
    } else if text_eq(value, "deleted") {
        Ok(MemoryQualityState::Deleted)
    } else {
        Err(unknown_value("unknown quality state: ", value))
    }
}

/// The wire name of a quality state.
pub fn quality_state_to_proto(value: MemoryQualityState) -> (r: String)
    ensures
        r@ == spec_quality_state_name(value),
{
    let name = match value {
        MemoryQualityState::Draft => "draft",
        MemoryQualityState::Active => "active",
        MemoryQualityState::Verified => "verified",
        MemoryQualityState::Archived => "archived",
        MemoryQualityState::Suppressed => "suppressed",
        MemoryQualityState::Deleted => "deleted",
    };
    String::from_str(name)
}

/// Reading the wire name of a quality state gives it back, and no two
/// quality states share a wire name.
pub proof fn lemma_quality_state_round_trip(value: MemoryQualityState)
    ensures
        spec_parse_quality_state(spec_quality_state_name(value)) == Some(value),
{
    reveal_strlit("");
    reveal_strlit("active");
    reveal_strlit("archived");
    reveal_strlit("deleted");
    reveal_strlit("draft");
    reveal_strlit("suppressed");
    reveal_strlit("verified");
    assert(""@.len() != "active"@.len());
    assert(""@.len() != "archived"@.len());
    assert(""@.len() != "deleted"@.len());
    assert(""@.len() != "draft"@.len());
    assert(""@.len() != "suppressed"@.len());
    assert(""@.len() != "verified"@.len());
    assert("active"@.len() != "archived"@.len());
    assert("active"@.len() != "deleted"@.len());
    assert("active"@.len() != "draft"@.len());
    assert("active"@.len() != "suppressed"@.len());
    assert("active"@.len() != "verified"@.len());
    assert("archived"@.len() != "deleted"@.len());
    assert("archived"@.len() != "draft"@.len());
    assert("archived"@.len() != "suppressed"@.len());
    assert("archived"@[0] != "verified"@[0]);
    assert("deleted"@.len() != "draft"@.len());
    assert("deleted"@.len() != "suppressed"@.len());
    assert("deleted"@.len() != "verified"@.len());
    assert("draft"@.len() != "suppressed"@.len());
    assert("draft"@.len() != "verified"@.len());
    assert("suppressed"@.len() != "verified"@.len());
}

/// The wire name of a continuity state.
pub open spec fn spec_continuity_state_name(value: EpisodeContinuityState) -> Seq<char> {
    match value {
        EpisodeContinuityState::Open => "open"@,
        EpisodeContinuityState::Resolved => "resolved"@,
        EpisodeContinuityState::Superseded => "superseded"@,
        EpisodeContinuityState::Abandoned => "abandoned"@,
    }
}

/// The continuity state a wire name stands for; the empty name stands for the default.
pub open spec fn spec_parse_continuity_state(s: Seq<char>) -> Option<EpisodeContinuityState> {
    if s == ""@ || s == "open"@ {
        Some(EpisodeContinuityState::Open)
    } else if s == "resolved"@ {
        Some(EpisodeContinuityState::Resolved)
    } else if s == "superseded"@ {
        Some(EpisodeContinuityState::Superseded)
    } else if s == "abandoned"@ {
        Some(EpisodeContinuityState::Abandoned)
    } else {
        None
    }
}

/// Reads a continuity state from its wire name; an unknown name is an invalid
/// request.
pub fn continuity_state_from_proto(value: &str) -> (r: Result<EpisodeContinuityState, Error>)
    ensures
        match spec_parse_continuity_state(value@) {
            Some(v) => r == Ok::<EpisodeContinuityState, Error>(v),
            None => r matches Err(e) && e.spec_is(ErrorKind::InvalidRequest, "unknown continuity state: "@ + value@),
        },
{
    if text_eq(value, "") || text_eq(value, "open") {
        Ok(EpisodeContinuityState::Open)
    } else if text_eq(value, "resolved") {
        Ok(EpisodeContinuityState::Resolved)
    } else if text_eq(value, "superseded") {
        Ok(EpisodeContinuityState::Superseded)
    } else if text_eq(value, "abandoned") {
        Ok(EpisodeContinuityState::Abandoned)
    } else {
        Err(unknown_value("unknown continuity state: ", value))
    }
}

/// The wire name of a continuity state.
pub fn continuity_state_to_proto(value: EpisodeContinuityState) -> (r: String)
    ensures
        r@ == spec_continuity_state_name(value),
{
    let name = match value {
        EpisodeContinuityState::Open => "open",
        EpisodeContinuityState::Resolved => "resolved",
        EpisodeContinuityState::Superseded => "superseded",
        EpisodeContinuityState::Abandoned => "abandoned",
    };
    String::from_str(name)
}

/// Reading the wire name of a continuity state gives it back, and no two
/// continuity states share a wire name.
pub proof fn lemma_continuity_state_round_trip(value: EpisodeContinuityState)
    ensures
        spec_parse_continuity_state(spec_continuity_state_name(value)) == Some(value),
{
    reveal_strlit("");
    reveal_strlit("abandoned");
    reveal_strlit("open");
    reveal_strlit("resolved");
    reveal_strlit("superseded");
    assert(""@.len() != "abandoned"@.len());
    assert(""@.len() != "open"@.len());
    assert(""@.len() != "resolved"@.len());
    assert(""@.len() != "superseded"@.len());
    assert("abandoned"@.len() != "open"@.len());
    assert("abandoned"@.len() != "resolved"@.len());
    assert("abandoned"@.len() != "superseded"@.len());
    assert("open"@.len() != "resolved"@.len());
    assert("open"@.len() != "superseded"@.len());
    assert("resolved"@.len() != "superseded"@.len());
}

/// The wire name of an affective provenance.
pub open spec fn spec_affective_provenance_name(value: AffectiveAnnotationProvenance) -> Seq<char> {
    match value {
        AffectiveAnnotationProvenance::Authored => "authored"@,
        AffectiveAnnotationProvenance::Imported => "imported"@,
        AffectiveAnnotationProvenance::Derived => "derived"@,
    }
}

/// The affective provenance a wire name stands for; the empty name stands for the default.
pub open spec fn spec_parse_affective_provenance(s: Seq<char>) -> Option<AffectiveAnnotationProvenance> {
    if s == ""@ || s == "authored"@ {
        Some(AffectiveAnnotationProvenance::Authored)
    } else if s == "imported"@ {
        Some(AffectiveAnnotationProvenance::Imported)
    } else if s == "derived"@ {
        Some(AffectiveAnnotationProvenance::Derived)
    } else {
        None
    }
}

/// Reads an affective provenance from its wire name; an unknown name is an invalid
/// request.
pub fn affective_provenance_from_proto(value: &str) -> (r: Result<AffectiveAnnotationProvenance, Error>)
    ensures
        match spec_parse_affective_provenance(value@) {
            Some(v) => r == Ok::<AffectiveAnnotationProvenance, Error>(v),
            None => r matches Err(e) && e.spec_is(ErrorKind::InvalidRequest, "unknown affective provenance: "@ + value@),
        },
{
    if text_eq(value, "") || text_eq(value, "authored") {
        Ok(AffectiveAnnotationProvenance::Authored)
    } else if text_eq(value, "imported") {
        Ok(AffectiveAnnotationProvenance::Imported)
    } else if text_eq(value, "derived") {
        Ok(AffectiveAnnotationProvenance::Derived)
    } else {
        Err(unknown_value("unknown affective provenance: ", value))
    }
}

/// The wire name of an affective provenance.
pub fn affective_provenance_to_proto(value: AffectiveAnnotationProvenance) -> (r: String)
    ensures
        r@ == spec_affective_provenance_name(value),
{
    let name = match value {
        AffectiveAnnotationProvenance::Authored => "authored",
        AffectiveAnnotationProvenance::Imported => "imported",
        AffectiveAnnotationProvenance::Derived => "derived",
    };
    String::from_str(name)
}

/// Reading the wire name of an affective provenance gives it back, and no two
/// affective provenances share a wire name.
pub proof fn lemma_affective_provenance_round_trip(value: AffectiveAnnotationProvenance)
    ensures
        spec_parse_affective_provenance(spec_affective_provenance_name(value)) == Some(value),
{
    reveal_strlit("");
    reveal_strlit("authored");
    reveal_strlit("derived");
    reveal_strlit("imported");
    assert(""@.len() != "authored"@.len());
    assert(""@.len() != "derived"@.len());
    assert(""@.len() != "imported"@.len());
    assert("authored"@.len() != "derived"@.len());
    assert("authored"@[0] != "imported"@[0]);
    assert("derived"@.len() != "imported"@.len());
}

/// The wire name of a temporal order.
pub open spec fn spec_temporal_order_name(value: RecallTemporalOrder) -> Seq<char> {
    match value {
        RecallTemporalOrder::Relevance => "relevance"@,
        RecallTemporalOrder::ChronologicalAsc => "chronological_asc"@,
        RecallTemporalOrder::ChronologicalDesc => "chronological_desc"@,
    }
}

/// The temporal order a wire name stands for; the empty name stands for the default.
pub open spec fn spec_parse_temporal_order(s: Seq<char>) -> Option<RecallTemporalOrder> {
    if s == ""@ || s == "relevance"@ {
        Some(RecallTemporalOrder::Relevance)
    } else if s == "chronological_asc"@ {
        Some(RecallTemporalOrder::ChronologicalAsc)
    } else if s == "chronological_desc"@ {
        Some(RecallTemporalOrder::ChronologicalDesc)
    } else {
        None
    }
}

/// Reads a temporal order from its wire name; an unknown name is an invalid
/// request.
pub fn temporal_order_from_proto(value: &str) -> (r: Result<RecallTemporalOrder, Error>)
    ensures
        match spec_parse_temporal_order(value@) {
            Some(v) => r == Ok::<RecallTemporalOrder, Error>(v),
            None => r matches Err(e) && e.spec_is(ErrorKind::InvalidRequest, "unknown temporal order: "@ + value@),
        },
{
    if text_eq(value, "") || text_eq(value, "relevance") {
        Ok(RecallTemporalOrder::Relevance)
    } else if text_eq(value, "chronological_asc") {
        Ok(RecallTemporalOrder::ChronologicalAsc)
    } else if text_eq(value, "chronological_desc") {
        Ok(RecallTemporalOrder::ChronologicalDesc)
    } else {
        Err(unknown_value("unknown temporal order: ", value))
    }
}

/// Reading the wire name of a temporal order gives it back, and no two
/// temporal orders share a wire name.
pub proof fn lemma_temporal_order_round_trip(value: RecallTemporalOrder)
    ensures
        spec_parse_temporal_order(spec_temporal_order_name(value)) == Some(value),
{
    reveal_strlit("");
    reveal_strlit("chronological_asc");
    reveal_strlit("chronological_desc");
    reveal_strlit("relevance");
    assert(""@.len() != "chronological_asc"@.len());
    assert(""@.len() != "chronological_desc"@.len());
    assert(""@.len() != "relevance"@.len());
    assert("chronological_asc"@.len() != "chronological_desc"@.len());
    assert("chronological_asc"@.len() != "relevance"@.len());
    assert("chronological_desc"@.len() != "relevance"@.len());
}

/// The wire name of a planning profile.
pub open spec fn spec_planning_profile_name(value: RecallPlanningProfile) -> Seq<char> {
    match value {
        RecallPlanningProfile::FastPath => "fast_path"@,
        RecallPlanningProfile::ContinuityAware => "continuity_aware"@,
    }
}

/// The planning profile a wire name stands for; the empty name stands for the default.
pub open spec fn spec_parse_planning_profile(s: Seq<char>) -> Option<RecallPlanningProfile> {
    if s == ""@ || s == "fast_path"@ {
        Some(RecallPlanningProfile::FastPath)
    } else if s == "continuity_aware"@ {
        Some(RecallPlanningProfile::ContinuityAware)
    } else {
        None
    }
}

/// Reads a planning profile from its wire name; an unknown name is an invalid
/// request.
pub fn planning_profile_from_proto(value: &str) -> (r: Result<RecallPlanningProfile, Error>)
    ensures
        match spec_parse_planning_profile(value@) {
            Some(v) => r == Ok::<RecallPlanningProfile, Error>(v),
            None => r matches Err(e) && e.spec_is(ErrorKind::InvalidRequest, "unknown planning profile: "@ + value@),
        },
{
    if text_eq(value, "") || text_eq(value, "fast_path") {
        Ok(RecallPlanningProfile::FastPath)
    } else if text_eq(value, "continuity_aware") {
        Ok(RecallPlanningProfile::ContinuityAware)
    } else {
        Err(unknown_value("unknown planning profile: ", value))
    }
}

/// The wire name of a planning profile.
pub fn planning_profile_to_proto(value: RecallPlanningProfile) -> (r: String)
    ensures
        r@ == spec_planning_profile_name(value),
{
    let name = match value {
        RecallPlanningProfile::FastPath => "fast_path",
        RecallPlanningProfile::ContinuityAware => "continuity_aware",
    };
    String::from_str(name)
}

/// Reading the wire name of a planning profile gives it back, and no two
/// planning profiles share a wire name.
pub proof fn lemma_planning_profile_round_trip(value: RecallPlanningProfile)
    ensures
        spec_parse_planning_profile(spec_planning_profile_name(value)) == Some(value),
{
    reveal_strlit("");
    reveal_strlit("continuity_aware");
    reveal_strlit("fast_path");
    assert(""@.len() != "continuity_aware"@.len());
    assert(""@.len() != "fast_path"@.len());
    assert("continuity_aware"@.len() != "fast_path"@.len());
}

/// The wire name of a planner stage.
pub open spec fn spec_planner_stage_name(value: RecallPlannerStage) -> Seq<char> {
    match value {
        RecallPlannerStage::CandidateGeneration => "candidate_generation"@,
        RecallPlannerStage::GraphExpansion => "graph_expansion"@,
        RecallPlannerStage::Selection => "selection"@,
    }
}

/// The wire name of a planner stage.
pub fn planner_stage_to_proto(value: RecallPlannerStage) -> (r: String)
    ensures
        r@ == spec_planner_stage_name(value),
{
    let name = match value {
        RecallPlannerStage::CandidateGeneration => "candidate_generation",
        RecallPlannerStage::GraphExpansion => "graph_expansion",
        RecallPlannerStage::Selection => "selection",
    };
    String::from_str(name)
}

/// The wire name of a candidate source.
pub open spec fn spec_candidate_source_name(value: RecallCandidateSource) -> Seq<char> {
    match value {
        RecallCandidateSource::Lexical => "lexical"@,
        RecallCandidateSource::Semantic => "semantic"@,
        RecallCandidateSource::Metadata => "metadata"@,
        RecallCandidateSource::Episode => "episode"@,
        RecallCandidateSource::Graph => "graph"@,
        RecallCandidateSource::Temporal => "temporal"@,
        RecallCandidateSource::Provenance => "provenance"@,
    }
}

/// The wire name of a candidate source.
pub fn candidate_source_to_proto(value: RecallCandidateSource) -> (r: String)
    ensures
        r@ == spec_candidate_source_name(value),
{
    let name = match value {
        RecallCandidateSource::Lexical => "lexical",
        RecallCandidateSource::Semantic => "semantic",
        RecallCandidateSource::Metadata => "metadata",
        RecallCandidateSource::Episode => "episode",
        RecallCandidateSource::Graph => "graph",
        RecallCandidateSource::Temporal => "temporal",
        RecallCandidateSource::Provenance => "provenance",
    };
    String::from_str(name)
}

/// The wire name of a historical state.
pub open spec fn spec_historical_state_name(value: MemoryHistoricalState) -> Seq<char> {
    match value {
        MemoryHistoricalState::Current => "current"@,
        MemoryHistoricalState::Historical => "historical"@,
        MemoryHistoricalState::Superseded => "superseded"@,
    }
}

/// The historical state a wire name stands for; the empty name stands for the default.
pub open spec fn spec_parse_historical_state(s: Seq<char>) -> Option<MemoryHistoricalState> {
    if s == ""@ || s == "current"@ {
        Some(MemoryHistoricalState::Current)
    } else if s == "historical"@ {
        Some(MemoryHistoricalState::Historical)
    } else if s == "superseded"@ {
        Some(MemoryHistoricalState::Superseded)
    } else {
        None
    }
}

/// Reads a historical state from its wire name; an unknown name is an invalid
/// request.
pub fn historical_state_from_proto(value: &str) -> (r: Result<MemoryHistoricalState, Error>)
    ensures
        match spec_parse_historical_state(value@) {
            Some(v) => r == Ok::<MemoryHistoricalState, Error>(v),
            None => r matches Err(e) && e.spec_is(ErrorKind::InvalidRequest, "unknown historical state: "@ + value@),
        },
{
    if text_eq(value, "") || text_eq(value, "current") {
        Ok(MemoryHistoricalState::Current)
    } else if text_eq(value, "historical") {
        Ok(MemoryHistoricalState::Historical)
    } else if text_eq(value, "superseded") {
        Ok(MemoryHistoricalState::Superseded)
    } else {
        Err(unknown_value("unknown historical state: ", value))
    }
}

/// The wire name of a historical state.
pub fn historical_state_to_proto(value: MemoryHistoricalState) -> (r: String)
    ensures
        r@ == spec_historical_state_name(value),
{
    let name = match value {
        MemoryHistoricalState::Current => "current",
        MemoryHistoricalState::Historical => "historical",
        MemoryHistoricalState::Superseded => "superseded",
    };
    String::from_str(name)
}

/// Reading the wire name of a historical state gives it back, and no two
/// historical states share a wire name.
pub proof fn lemma_historical_state_round_trip(value: MemoryHistoricalState)
    ensures
        spec_parse_historical_state(spec_historical_state_name(value)) == Some(value),
{
    reveal_strlit("");
    reveal_strlit("current");
    reveal_strlit("historical");
    reveal_strlit("superseded");
    assert(""@.len() != "current"@.len());
    assert(""@.len() != "historical"@.len());
    assert(""@.len() != "superseded"@.len());
    assert("current"@.len() != "historical"@.len());
    assert("current"@.len() != "superseded"@.len());
    assert("historical"@[0] != "superseded"@[0]);
}

/// The wire name of a lineage relation.
pub open spec fn spec_lineage_relation_name(value: LineageRelationKind) -> Seq<char> {
    match value {
        LineageRelationKind::DerivedFrom => "derived_from"@,
        LineageRelationKind::ConsolidatedFrom => "consolidated_from"@,
        LineageRelationKind::Supersedes => "supersedes"@,
        LineageRelationKind::SupersededBy => "superseded_by"@,
        LineageRelationKind::ConflictsWith => "conflicts_with"@,
    }
}

/// The lineage relation a wire name stands for; the empty name stands for the default.
pub open spec fn spec_parse_lineage_relation(s: Seq<char>) -> Option<LineageRelationKind> {
    if s == ""@ || s == "derived_from"@ {
        Some(LineageRelationKind::DerivedFrom)
    } else if s == "consolidated_from"@ {
        Some(LineageRelationKind::ConsolidatedFrom)
    } else if s == "supersedes"@ {
        Some(LineageRelationKind::Supersedes)
    } else if s == "superseded_by"@ {
        Some(LineageRelationKind::SupersededBy)
    } else if s == "conflicts_with"@ {
        Some(LineageRelationKind::ConflictsWith)
    } else {
        None
    }
}

/// Reads a lineage relation from its wire name; an unknown name is an invalid
/// request.
pub fn lineage_relation_from_proto(value: &str) -> (r: Result<LineageRelationKind, Error>)
    ensures
        match spec_parse_lineage_relation(value@) {
            Some(v) => r == Ok::<LineageRelationKind, Error>(v),
            None => r matches Err(e) && e.spec_is(ErrorKind::InvalidRequest, "unknown lineage relation: "@ + value@),
        },
{
    if text_eq(value, "") || text_eq(value, "derived_from") {
        Ok(LineageRelationKind::DerivedFrom)
    } else if text_eq(value, "consolidated_from") {
        Ok(LineageRelationKind::ConsolidatedFrom)
    } else if text_eq(value, "supersedes") {
        Ok(LineageRelationKind::Supersedes)
    } else if text_eq(value, "superseded_by") {
        Ok(LineageRelationKind::SupersededBy)
    } else if text_eq(value, "conflicts_with") {
        Ok(LineageRelationKind::ConflictsWith)
    } else {
        Err(unknown_value("unknown lineage relation: ", value))
    }
}

/// The wire name of a lineage relation.
pub fn lineage_relation_to_proto(value: LineageRelationKind) -> (r: String)
    ensures
        r@ == spec_lineage_relation_name(value),
{
    let name = match value {
        LineageRelationKind::DerivedFrom => "derived_from",
        LineageRelationKind::ConsolidatedFrom => "consolidated_from",
        LineageRelationKind::Supersedes => "supersedes",
        LineageRelationKind::SupersededBy => "superseded_by",
        LineageRelationKind::ConflictsWith => "conflicts_with",
    };
    String::from_str(name)
}

/// Reading the wire name of a lineage relation gives it back, and no two
/// lineage relations share a wire name.
pub proof fn lemma_lineage_relation_round_trip(value: LineageRelationKind)
    ensures
        spec_parse_lineage_relation(spec_lineage_relation_name(value)) == Some(value),
{
    reveal_strlit("");
    reveal_strlit("conflicts_with");
    reveal_strlit("consolidated_from");
    reveal_strlit("derived_from");
    reveal_strlit("superseded_by");
    reveal_strlit("supersedes");
    assert(""@.len() != "conflicts_with"@.len());
    assert(""@.len() != "consolidated_from"@.len());
    assert(""@.len() != "derived_from"@.len());
    assert(""@.len() != "superseded_by"@.len());
    assert(""@.len() != "supersedes"@.len());
    assert("conflicts_with"@.len() != "consolidated_from"@.len());
    assert("conflicts_with"@.len() != "derived_from"@.len());
    assert("conflicts_with"@.len() != "superseded_by"@.len());
    assert("conflicts_with"@.len() != "supersedes"@.len());
    assert("consolidated_from"@.len() != "derived_from"@.len());
    assert("consolidated_from"@.len() != "superseded_by"@.len());
    assert("consolidated_from"@.len() != "supersedes"@.len());
    assert("derived_from"@.len() != "superseded_by"@.len());
    assert("derived_from"@.len() != "supersedes"@.len());
    assert("superseded_by"@.len() != "supersedes"@.len());
}

/// The wire name of a historical mode.
pub open spec fn spec_historical_mode_name(value: RecallHistoricalMode) -> Seq<char> {
    match value {
        RecallHistoricalMode::CurrentOnly => "current_only"@,
        RecallHistoricalMode::IncludeHistorical => "include_historical"@,
        RecallHistoricalMode::HistoricalOnly => "historical_only"@,
    }
}

/// The historical mode a wire name stands for; the empty name stands for the default.
pub open spec fn spec_parse_historical_mode(s: Seq<char>) -> Option<RecallHistoricalMode> {
    if s == ""@ || s == "current_only"@ {
        Some(RecallHistoricalMode::CurrentOnly)
    } else if s == "include_historical"@ {
        Some(RecallHistoricalMode::IncludeHistorical)
    } else if s == "historical_only"@ {
        Some(RecallHistoricalMode::HistoricalOnly)
    } else {
        None
    }
}

/// Reads a historical mode from its wire name; an unknown name is an invalid
/// request.
pub fn historical_mode_from_proto(value: &str) -> (r: Result<RecallHistoricalMode, Error>)
    ensures
        match spec_parse_historical_mode(value@) {
            Some(v) => r == Ok::<RecallHistoricalMode, Error>(v),
            None => r matches Err(e) && e.spec_is(ErrorKind::InvalidRequest, "unknown historical mode: "@ + value@),
        },
{
    if text_eq(value, "") || text_eq(value, "current_only") {
        Ok(RecallHistoricalMode::CurrentOnly)
    } else if text_eq(value, "include_historical") {
        Ok(RecallHistoricalMode::IncludeHistorical)
    } else if text_eq(value, "historical_only") {
        Ok(RecallHistoricalMode::HistoricalOnly)
    } else {
        Err(unknown_value("unknown historical mode: ", value))
    }
}

/// Reading the wire name of a historical mode gives it back, and no two
/// historical modes share a wire name.
pub proof fn lemma_historical_mode_round_trip(value: RecallHistoricalMode)
    ensures
        spec_parse_historical_mode(spec_historical_mode_name(value)) == Some(value),
{
    reveal_strlit("");
    reveal_strlit("current_only");
    reveal_strlit("historical_only");
    reveal_strlit("include_historical");
    assert(""@.len() != "current_only"@.len());
    assert(""@.len() != "historical_only"@.len());
    assert(""@.len() != "include_historical"@.len());
    assert("current_only"@.len() != "historical_only"@.len());
    assert("current_only"@.len() != "include_historical"@.len());
    assert("historical_only"@.len() != "include_historical"@.len());
}

/// Reads a list of record kinds; the first unknown name makes the whole list an
/// invalid request.
pub fn kinds_from_proto(values: Vec<String>) -> (r: Result<Vec<MemoryRecordKind>, Error>)
    ensures
        (forall|i: int| 0 <= i < values@.len() ==> spec_parse_record_kind(#[trigger] values@[i]@) is Some)
            ==> (r matches Ok(out) && out@.len() == values@.len() && forall|i: int|
            0 <= i < values@.len() ==> spec_parse_record_kind(values@[i]@) == Some(#[trigger] out@[i])),
        forall|j: int|
            0 <= j < values@.len() && spec_parse_record_kind(#[trigger] values@[j]@) is None && (forall|
                k: int,
            | 0 <= k < j ==> spec_parse_record_kind(#[trigger] values@[k]@) is Some) ==> (r matches Err(e)
                && e.spec_is(ErrorKind::InvalidRequest, "unknown record kind: "@ + values@[j]@)),
{
    let mut out: Vec<MemoryRecordKind> = Vec::new();
    let n = values.len();
    let mut i: usize = 0;
    while i < n
        invariant
            n == values@.len(),
            i <= n,
            out@.len() == i,
            forall|k: int| 0 <= k < i ==> spec_parse_record_kind(#[trigger] values@[k]@) == Some(out@[k]),
        decreases n - i,
    {
        match record_kind_from_proto(values[i].as_str()) {
            Ok(v) => {
                out.push(v);
            },
            Err(e) => {
                proof {
                    assert forall|j: int|
                        0 <= j < values@.len() && spec_parse_record_kind(#[trigger] values@[j]@) is None && (
                        forall|k: int| 0 <= k < j ==> spec_parse_record_kind(#[trigger] values@[k]@) is Some)
                        implies j == i by {
                        if j < i {
                            assert(spec_parse_record_kind(values@[j]@) == Some(out@[j]));
                        }
                        if j > i {
                            assert(spec_parse_record_kind(values@[i as int]@) is Some);
                        }
                    }
                }
                return Err(e);
            },
        }
        i += 1;
    }
    Ok(out)
}

/// Reads a list of trust levels; the first unknown name makes the whole list an
/// invalid request.
pub fn trust_levels_from_proto(values: Vec<String>) -> (r: Result<Vec<MemoryTrustLevel>, Error>)
    ensures
        (forall|i: int| 0 <= i < values@.len() ==> spec_parse_trust_level(#[trigger] values@[i]@) is Some)
            ==> (r matches Ok(out) && out@.len() == values@.len() && forall|i: int|
            0 <= i < values@.len() ==> spec_parse_trust_level(values@[i]@) == Some(#[trigger] out@[i])),
        forall|j: int|
            0 <= j < values@.len() && spec_parse_trust_level(#[trigger] values@[j]@) is None && (forall|
                k: int,
            | 0 <= k < j ==> spec_parse_trust_level(#[trigger] values@[k]@) is Some) ==> (r matches Err(e)
                && e.spec_is(ErrorKind::InvalidRequest, "unknown trust level: "@ + values@[j]@)),
{
    let mut out: Vec<MemoryTrustLevel> = Vec::new();
    let n = values.len();
    let mut i: usize = 0;
    while i < n
        invariant
            n == values@.len(),
            i <= n,
            out@.len() == i,
            forall|k: int| 0 <= k < i ==> spec_parse_trust_level(#[trigger] values@[k]@) == Some(out@[k]),
        decreases n - i,
    {
        match trust_level_from_proto(values[i].as_str()) {
            Ok(v) => {
                out.push(v);
            },
            Err(e) => {
                proof {
                    assert forall|j: int|
                        0 <= j < values@.len() && spec_parse_trust_level(#[trigger] values@[j]@) is None && (
                        forall|k: int| 0 <= k < j ==> spec_parse_trust_level(#[trigger] values@[k]@) is Some)
                        implies j == i by {
                        if j < i {
                            assert(spec_parse_trust_level(values@[j]@) == Some(out@[j]));
                        }
                        if j > i {
                            assert(spec_parse_trust_level(values@[i as int]@) is Some);
                        }
                    }
                }
                return Err(e);
            },
        }
        i += 1;
    }
    Ok(out)
}

/// Reads a list of quality states; the first unknown name makes the whole list an
/// invalid request.
pub fn quality_states_from_proto(values: Vec<String>) -> (r: Result<Vec<MemoryQualityState>, Error>)
    ensures
        (forall|i: int| 0 <= i < values@.len() ==> spec_parse_quality_state(#[trigger] values@[i]@) is Some)
            ==> (r matches Ok(out) && out@.len() == values@.len() && forall|i: int|
            0 <= i < values@.len() ==> spec_parse_quality_state(values@[i]@) == Some(#[trigger] out@[i])),
        forall|j: int|
            0 <= j < values@.len() && spec_parse_quality_state(#[trigger] values@[j]@) is None && (forall|
                k: int,
            | 0 <= k < j ==> spec_parse_quality_state(#[trigger] values@[k]@) is Some) ==> (r matches Err(e)
                && e.spec_is(ErrorKind::InvalidRequest, "unknown quality state: "@ + values@[j]@)),
{
    let mut out: Vec<MemoryQualityState> = Vec::new();
    let n = values.len();
    let mut i: usize = 0;
    while i < n
        invariant
            n == values@.len(),
            i <= n,
            out@.len() == i,
            forall|k: int| 0 <= k < i ==> spec_parse_quality_state(#[trigger] values@[k]@) == Some(out@[k]),
        decreases n - i,
    {
        match quality_state_from_proto(values[i].as_str()) {
            Ok(v) => {
                out.push(v);
            },
            Err(e) => {
                proof {
                    assert forall|j: int|
                        0 <= j < values@.len() && spec_parse_quality_state(#[trigger] values@[j]@) is None && (
                        forall|k: int| 0 <= k < j ==> spec_parse_quality_state(#[trigger] values@[k]@) is Some)
                        implies j == i by {
                        if j < i {
                            assert(spec_parse_quality_state(values@[j]@) == Some(out@[j]));
                        }
                        if j > i {
                            assert(spec_parse_quality_state(values@[i as int]@) is Some);
                        }
                    }
                }
                return Err(e);
            },
        }
        i += 1;
    }
    Ok(out)
}
} // verus!
