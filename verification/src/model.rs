//! The memory domain model: scopes, trust and quality states, episodes,
//! lineage, and the validation rules that a record must meet.

use vstd::prelude::*;
use crate::error::{Error, ErrorKind};
use crate::text::{
    copy_option_text, copy_texts, decimal_string, is_blank, list_contains, option_text_is,
    spec_decimal, spec_is_blank,
};

verus! {

/// The version of the episode context layout that this library reads and writes.
pub const EPISODE_SCHEMA_VERSION: u32 = 1;

/// The episode schema version assumed when a stored episode names none.
pub fn default_episode_schema_version() -> (r: u32)
    ensures
        r == EPISODE_SCHEMA_VERSION,
{
    EPISODE_SCHEMA_VERSION
}

#[derive(Debug, Clone, Copy, PartialEq, Eq, Structural)]
pub enum MemoryTrustLevel {
    Untrusted,
    Observed,
    Derived,
    Verified,
    Pinned,
}

impl Default for MemoryTrustLevel {
    fn default() -> (r: Self)
        ensures
            r == MemoryTrustLevel::Derived,
    {
        MemoryTrustLevel::Derived
    }
}

/// Who a memory belongs to and where it came from.
#[derive(Debug, PartialEq, Eq)]
pub struct MemoryScope {
    pub tenant_id: String,
    pub namespace: String,
    pub actor_id: String,
    pub conversation_id: Option<String>,
    pub session_id: Option<String>,
    pub source: String,
    pub labels: Vec<String>,
    pub trust_level: MemoryTrustLevel,
}

impl MemoryScope {
    /// Two scopes with the same texts, labels and trust level.
    pub open spec fn spec_same(&self, other: &MemoryScope) -> bool {
        &&& self.tenant_id == other.tenant_id
        &&& self.namespace == other.namespace
        &&& self.actor_id == other.actor_id
        &&& self.conversation_id == other.conversation_id
        &&& self.session_id == other.session_id
        &&& self.source == other.source
        &&& self.labels@ == other.labels@
        &&& self.trust_level == other.trust_level
    }
}

impl Clone for MemoryScope {
    fn clone(&self) -> (r: Self)
        ensures
            r.spec_same(self),
    {
        MemoryScope {
            tenant_id: self.tenant_id.clone(),
            namespace: self.namespace.clone(),
            actor_id: self.actor_id.clone(),
            conversation_id: copy_option_text(&self.conversation_id),
            session_id: copy_option_text(&self.session_id),
            source: self.source.clone(),
            labels: copy_texts(&self.labels),
            trust_level: self.trust_level,
        }
    }
}

impl Default for MemoryScope {
    fn default() -> (r: Self)
        ensures
            r.tenant_id@.len() == 0,
            r.namespace@.len() == 0,
            r.actor_id@.len() == 0,
            r.conversation_id is None,
            r.session_id is None,
            r.source@.len() == 0,
            r.labels@.len() == 0,
            r.trust_level == MemoryTrustLevel::Derived,
    {
        MemoryScope {
            tenant_id: String::new(),
            namespace: String::new(),
            actor_id: String::new(),
            conversation_id: None,
            session_id: None,
            source: String::new(),
            labels: Vec::new(),
            trust_level: MemoryTrustLevel::Derived,
        }
    }
}

#[derive(Debug, Clone, Copy, PartialEq, Eq, Structural)]
pub enum MemoryRecordKind {
    Episodic,
    Summary,
    Fact,
    Preference,
    Task,
    Artifact,
    Hypothesis,
}

#[derive(Debug, Clone, Copy, PartialEq, Eq, Structural)]
pub enum MemoryQualityState {
    Draft,
    Active,
    Verified,
    Archived,
    Suppressed,
    Deleted,
}

/// A pointer to an artifact that a memory describes.
#[derive(Debug, Clone, PartialEq, Eq)]
pub struct ArtifactPointer {
    pub uri: String,
    pub media_type: Option<String>,
    pub checksum: Option<String>,
}

#[derive(Debug, Clone, Copy, PartialEq, Eq, Structural)]
pub enum EpisodeContinuityState {
    Open,
    Resolved,
    Superseded,
    Abandoned,
}

impl Default for EpisodeContinuityState {
    fn default() -> (r: Self)
        ensures
            r == EpisodeContinuityState::Open,
    {
        EpisodeContinuityState::Open
    }
}

impl EpisodeContinuityState {
    /// An episode is unresolved while it is open or after it was abandoned.
    pub open spec fn spec_is_unresolved(self) -> bool {
        self == EpisodeContinuityState::Open || self == EpisodeContinuityState::Abandoned
    }

    pub fn is_unresolved(self) -> (r: bool)
        ensures
            r == self.spec_is_unresolved(),
    {
        match self {
            EpisodeContinuityState::Open | EpisodeContinuityState::Abandoned => true,
            _ => false,
        }
    }
}

#[derive(Debug, Clone, Copy, PartialEq, Eq, Structural)]
pub enum MemoryHistoricalState {
    Current,
    Historical,
    Superseded,
}

impl Default for MemoryHistoricalState {
    fn default() -> (r: Self)
        ensures
            r == MemoryHistoricalState::Current,
    {
        MemoryHistoricalState::Current
    }
}

#[derive(Debug, Clone, Copy, PartialEq, Eq, Structural)]
pub enum LineageRelationKind {
    DerivedFrom,
    ConsolidatedFrom,
    Supersedes,
    SupersededBy,
    ConflictsWith,
}

impl Default for LineageRelationKind {
    fn default() -> (r: Self)
        ensures
            r == LineageRelationKind::DerivedFrom,
    {
        LineageRelationKind::DerivedFrom
    }
}

#[derive(Debug, Clone, Copy, PartialEq, Eq, Structural)]
pub enum AffectiveAnnotationProvenance {
    Authored,
    Imported,
    Derived,
}

impl Default for AffectiveAnnotationProvenance {
    fn default() -> (r: Self)
        ensures
            r == AffectiveAnnotationProvenance::Authored,
    {
        AffectiveAnnotationProvenance::Authored
    }
}

/// Where a record stands in the review of a conflict with other records.
#[derive(Debug, Clone, Copy, PartialEq, Eq, Structural)]
pub enum ConflictReviewState {
    PotentialConflict,
    UnderReview,
    Resolved,
    Dismissed,
}

impl Default for ConflictReviewState {
    fn default() -> (r: Self)
        ensures
            r == ConflictReviewState::PotentialConflict,
    {
        ConflictReviewState::PotentialConflict
    }
}

/// How a conflict between records was settled.
#[derive(Debug, Clone, Copy, PartialEq, Eq, Structural)]
pub enum ConflictResolutionKind {
    Unresolved,
    KeepCurrent,
    KeepIncoming,
    Merged,
}

impl Default for ConflictResolutionKind {
    fn default() -> (r: Self)
        ensures
            r == ConflictResolutionKind::Unresolved,
    {
        ConflictResolutionKind::Unresolved
    }
}

/// The records that a record conflicts with, and the state of that conflict.
#[derive(Debug, Clone, PartialEq, Eq, Default)]
pub struct ConflictAnnotation {
    pub state: ConflictReviewState,
    pub resolution: ConflictResolutionKind,
    pub conflicting_record_ids: Vec<String>,
}

/// A link from a record to a record it derives from, supersedes or conflicts with;
/// the confidence is in thousandths.
#[derive(Debug, Clone, PartialEq, Eq)]
pub struct LineageEdge {
    pub record_id: String,
    pub relation: LineageRelationKind,
    pub confidence_per_mille: u16,
}

/// The episode a record belongs to: identity, continuity, timeline and links
/// to neighbouring records.
#[derive(Debug, Clone, PartialEq, Eq)]
pub struct EpisodeFrame {
    pub schema_version: u32,
    pub episode_id: String,
    pub summary: Option<String>,
    pub continuity_state: EpisodeContinuityState,
    pub actor_ids: Vec<String>,
    pub goal: Option<String>,
    pub outcome: Option<String>,
    pub started_at_unix_ms: Option<u64>,
    pub ended_at_unix_ms: Option<u64>,
    pub last_active_unix_ms: Option<u64>,
    pub recurrence_key: Option<String>,
    pub recurrence_interval_ms: Option<u64>,
    pub boundary_label: Option<String>,
    pub previous_record_id: Option<String>,
    pub next_record_id: Option<String>,
    pub causal_record_ids: Vec<String>,
    pub related_record_ids: Vec<String>,
    pub linked_artifact_uris: Vec<String>,
}

pub open spec fn spec_seq_has(items: Seq<String>, s: Seq<char>) -> bool {
    exists|i: int| 0 <= i < items.len() && #[trigger] items[i]@ == s
}

pub open spec fn spec_option_is(value: Option<String>, s: Seq<char>) -> bool {
    value matches Some(v) && v@ == s
}

pub open spec fn spec_option_blank(value: Option<String>) -> bool {
    value matches Some(v) && spec_is_blank(v@)
}

impl Default for EpisodeFrame {
    /// An open episode of the current schema with no id, links or timeline.
    fn default() -> (r: Self)
        ensures
            r.schema_version == EPISODE_SCHEMA_VERSION,
            r.episode_id@.len() == 0,
            r.summary is None,
            r.continuity_state == EpisodeContinuityState::Open,
            r.actor_ids@.len() == 0,
            r.goal is None,
            r.outcome is None,
            r.started_at_unix_ms is None,
            r.ended_at_unix_ms is None,
            r.last_active_unix_ms is None,
            r.recurrence_key is None,
            r.recurrence_interval_ms is None,
            r.boundary_label is None,
            r.previous_record_id is None,
            r.next_record_id is None,
            r.causal_record_ids@.len() == 0,
            r.related_record_ids@.len() == 0,
            r.linked_artifact_uris@.len() == 0,
    {
        EpisodeFrame {
            schema_version: EPISODE_SCHEMA_VERSION,
            episode_id: String::new(),
            summary: None,
            continuity_state: EpisodeContinuityState::Open,
            actor_ids: Vec::new(),
            goal: None,
            outcome: None,
            started_at_unix_ms: None,
            ended_at_unix_ms: None,
            last_active_unix_ms: None,
            recurrence_key: None,
            recurrence_interval_ms: None,
            boundary_label: None,
            previous_record_id: None,
            next_record_id: None,
            causal_record_ids: Vec::new(),
            related_record_ids: Vec::new(),
            linked_artifact_uris: Vec::new(),
        }
    }
}

impl EpisodeFrame {
    /// How long the episode lasted: from its start to its end, or to its last
    /// activity while it has not ended.
    pub open spec fn spec_duration_hint_ms(&self) -> Option<u64> {
        match (self.started_at_unix_ms, self.ended_at_unix_ms, self.last_active_unix_ms) {
            (Some(s), Some(e), _) => if e >= s {
                Some((e - s) as u64)
            } else {
                None
            },
            (Some(s), None, Some(l)) => if l >= s {
                Some((l - s) as u64)
            } else {
                None
            },
            _ => None,
        }
    }

    pub fn duration_hint_ms(&self) -> (r: Option<u64>)
        ensures
            r == self.spec_duration_hint_ms(),
    {
        match (self.started_at_unix_ms, self.ended_at_unix_ms, self.last_active_unix_ms) {
            (Some(started), Some(ended), _) => if ended >= started {
                Some(ended - started)
            } else {
                None
            },
            (Some(started), None, Some(last_active)) => if last_active >= started {
                Some(last_active - started)
            } else {
                None
            },
            _ => None,
        }
    }

    /// The first rule that the episode of record `record_id`, owned by actor
    /// `actor_id`, breaks, with the error it is reported as.
    pub open spec fn spec_violation(&self, record_id: Seq<char>, actor_id: Seq<char>) -> Option<
        (ErrorKind, Seq<char>),
    > {
        if self.schema_version != EPISODE_SCHEMA_VERSION {
            Some(
                (
                    ErrorKind::Unsupported,
                    "unsupported episode schema version "@ + spec_decimal(
                        self.schema_version as nat,
                    ) + "; expected 1"@,
                ),
            )
        } else if spec_is_blank(self.episode_id@) {
            Some(
                (
                    ErrorKind::InvalidRequest,
                    "episode_id is required when episode context is present"@,
                ),
            )
        } else if spec_option_is(self.previous_record_id, record_id) {
            Some(
                (
                    ErrorKind::InvalidRequest,
                    "episode previous_record_id cannot reference the current record"@,
                ),
            )
        } else if spec_option_is(self.next_record_id, record_id) {
            Some(
                (
                    ErrorKind::InvalidRequest,
                    "episode next_record_id cannot reference the current record"@,
                ),
            )
        } else if spec_seq_has(self.causal_record_ids@, record_id) {
            Some(
                (
                    ErrorKind::InvalidRequest,
                    "episode causal_record_ids cannot reference the current record"@,
                ),
            )
        } else if spec_seq_has(self.related_record_ids@, record_id) {
            Some(
                (
                    ErrorKind::InvalidRequest,
                    "episode related_record_ids cannot reference the current record"@,
                ),
            )
        } else if self.started_at_unix_ms is Some && self.ended_at_unix_ms is Some
            && self.ended_at_unix_ms->0 < self.started_at_unix_ms->0 {
            Some(
                (
                    ErrorKind::InvalidRequest,
                    "episode ended_at_unix_ms cannot be earlier than started_at_unix_ms"@,
                ),
            )
        } else if self.started_at_unix_ms is Some && self.last_active_unix_ms is Some
            && self.last_active_unix_ms->0 < self.started_at_unix_ms->0 {
            Some(
                (
                    ErrorKind::InvalidRequest,
                    "episode last_active_unix_ms cannot be earlier than started_at_unix_ms"@,
                ),
            )
        } else if self.last_active_unix_ms is Some && self.ended_at_unix_ms is Some
            && self.last_active_unix_ms->0 > self.ended_at_unix_ms->0 {
            Some(
                (
                    ErrorKind::InvalidRequest,
                    "episode last_active_unix_ms cannot be later than ended_at_unix_ms"@,
                ),
            )
        } else if spec_option_blank(self.recurrence_key) {
            Some(
                (
                    ErrorKind::InvalidRequest,
                    "episode recurrence_key cannot be empty when provided"@,
                ),
            )
        } else if spec_option_blank(self.boundary_label) {
            Some(
                (
                    ErrorKind::InvalidRequest,
                    "episode boundary_label cannot be empty when provided"@,
                ),
            )
        } else if self.recurrence_interval_ms == Some(0u64) {
            Some(
                (
                    ErrorKind::InvalidRequest,
                    "episode recurrence_interval_ms must be greater than zero"@,
                ),
            )
        } else if self.recurrence_interval_ms is Some && self.recurrence_key is None {
            Some(
                (
                    ErrorKind::InvalidRequest,
                    "episode recurrence_key is required when recurrence_interval_ms is present"@,
                ),
            )
        } else if self.actor_ids@.len() > 0 && !spec_seq_has(self.actor_ids@, actor_id) {
            Some(
                (
                    ErrorKind::InvalidRequest,
                    "episode actor_ids must include the owning record actor when provided"@,
                ),
            )
        } else {
            None
        }
    }

    /// Checks the association rules of the episode of record `record_id`
    /// owned by actor `actor_id`, reporting the first rule it breaks.
    pub fn validate_for_record(&self, record_id: &str, actor_id: &str) -> (r: Result<(), Error>)
        ensures
            match r {
                Ok(()) => self.spec_violation(record_id@, actor_id@) is None,
                Err(e) => self.spec_violation(record_id@, actor_id@) == Some(
                    (e.spec_kind(), e.spec_message()),
                ),
            },
    {
        if self.schema_version != EPISODE_SCHEMA_VERSION {
            let mut message = String::from_str("unsupported episode schema version ");
            let version = decimal_string(self.schema_version as u64);
            message.append(version.as_str());
            message.append("; expected 1");
            return Err(Error::Unsupported(message));
        }
        if is_blank(self.episode_id.as_str()) {
            return Err(
                Error::InvalidRequest(
                    String::from_str("episode_id is required when episode context is present"),
                ),
            );
        }
        if option_text_is(&self.previous_record_id, record_id) {
            return Err(
                Error::InvalidRequest(
                    String::from_str(
                        "episode previous_record_id cannot reference the current record",
                    ),
                ),
            );
        }
        if option_text_is(&self.next_record_id, record_id) {
            return Err(
                Error::InvalidRequest(
                    String::from_str("episode next_record_id cannot reference the current record"),
                ),
            );
        }
        if list_contains(&self.causal_record_ids, record_id) {
            return Err(
                Error::InvalidRequest(
                    String::from_str(
                        "episode causal_record_ids cannot reference the current record",
                    ),
                ),
            );
        }
        if list_contains(&self.related_record_ids, record_id) {
            return Err(
                Error::InvalidRequest(
                    String::from_str(
                        "episode related_record_ids cannot reference the current record",
                    ),
                ),
            );
        }
        if let (Some(started), Some(ended)) = (self.started_at_unix_ms, self.ended_at_unix_ms) {
            if ended < started {
                return Err(
                    Error::InvalidRequest(
                        String::from_str(
                            "episode ended_at_unix_ms cannot be earlier than started_at_unix_ms",
                        ),
                    ),
                );
            }
        }
        if let (Some(started), Some(last_active)) = (
            self.started_at_unix_ms,
            self.last_active_unix_ms,
        ) {
            if last_active < started {
                return Err(
                    Error::InvalidRequest(
                        String::from_str(
                            "episode last_active_unix_ms cannot be earlier than started_at_unix_ms",
                        ),
                    ),
                );
            }
        }
        if let (Some(last_active), Some(ended)) = (self.last_active_unix_ms, self.ended_at_unix_ms) {
            if last_active > ended {
                return Err(
                    Error::InvalidRequest(
                        String::from_str(
                            "episode last_active_unix_ms cannot be later than ended_at_unix_ms",
                        ),
                    ),
                );
            }
        }
        if let Some(key) = &self.recurrence_key {
            if is_blank(key.as_str()) {
                return Err(
                    Error::InvalidRequest(
                        String::from_str("episode recurrence_key cannot be empty when provided"),
                    ),
                );
            }
        }
        if let Some(label) = &self.boundary_label {
            if is_blank(label.as_str()) {
                return Err(
                    Error::InvalidRequest(
                        String::from_str("episode boundary_label cannot be empty when provided"),
                    ),
                );
            }
        }
        if self.recurrence_interval_ms == Some(0u64) {
            return Err(
                Error::InvalidRequest(
                    String::from_str("episode recurrence_interval_ms must be greater than zero"),
                ),
            );
        }
        if self.recurrence_interval_ms.is_some() && self.recurrence_key.is_none() {
            return Err(
                Error::InvalidRequest(
                    String::from_str(
                        "episode recurrence_key is required when recurrence_interval_ms is present",
                    ),
                ),
            );
        }
        if self.actor_ids.len() > 0 && !list_contains(&self.actor_ids, actor_id) {
            return Err(
                Error::InvalidRequest(
                    String::from_str(
                        "episode actor_ids must include the owning record actor when provided",
                    ),
                ),
            );
        }
        Ok(())
    }
}

/// The plain-value content of a memory record that validation, graph
/// inspection and maintenance read; the importance score is carried in
/// thousandths.
#[derive(Debug, Clone, PartialEq, Eq)]
pub struct RecordFrame {
    pub id: String,
    pub scope: MemoryScope,
    pub kind: MemoryRecordKind,
    pub content: String,
    pub summary: Option<String>,
    pub source_id: Option<String>,
    pub quality_state: MemoryQualityState,
    pub created_at_unix_ms: u64,
    pub updated_at_unix_ms: u64,
    pub expires_at_unix_ms: Option<u64>,
    pub importance_per_mille: u16,
    /// The place of the importance score in the total order of scores
    /// (`f32::total_cmp`): records are ordered by importance through it.
    pub importance_key: u32,
    pub has_artifact: bool,
    pub episode: Option<EpisodeFrame>,
    pub historical_state: MemoryHistoricalState,
    pub lineage: Vec<LineageEdge>,
    pub conflict: Option<ConflictAnnotation>,
}

impl RecordFrame {
    /// The first rule that the record breaks, with the error it is reported as.
    pub open spec fn spec_violation(&self) -> Option<(ErrorKind, Seq<char>)> {
        if spec_is_blank(self.id@) {
            Some((ErrorKind::InvalidRequest, "memory record id is required"@))
        } else if spec_is_blank(self.scope.tenant_id@) {
            Some((ErrorKind::InvalidRequest, "memory record tenant_id is required"@))
        } else if spec_is_blank(self.scope.namespace@) {
            Some((ErrorKind::InvalidRequest, "memory record namespace is required"@))
        } else if spec_is_blank(self.scope.actor_id@) {
            Some((ErrorKind::InvalidRequest, "memory record actor_id is required"@))
        } else if spec_is_blank(self.content@) && !self.has_artifact {
            Some((ErrorKind::InvalidRequest, "memory record content or artifact is required"@))
        } else {
            match self.episode {
                Some(episode) => episode.spec_violation(self.id@, self.scope.actor_id@),
                None => None,
            }
        }
    }

    /// Checks that the record names an id, tenant, namespace and actor, has
    /// content or an artifact, and that its episode meets the association
    /// rules; reports the first rule it breaks.
    pub fn validate(&self) -> (r: Result<(), Error>)
        ensures
            match r {
                Ok(()) => self.spec_violation() is None,
                Err(e) => self.spec_violation() == Some((e.spec_kind(), e.spec_message())),
            },
    {
        if is_blank(self.id.as_str()) {
            return Err(Error::InvalidRequest(String::from_str("memory record id is required")));
        }
        if is_blank(self.scope.tenant_id.as_str()) {
            return Err(
                Error::InvalidRequest(String::from_str("memory record tenant_id is required")),
            );
        }
        if is_blank(self.scope.namespace.as_str()) {
            return Err(
                Error::InvalidRequest(String::from_str("memory record namespace is required")),
            );
        }
        if is_blank(self.scope.actor_id.as_str()) {
            return Err(
                Error::InvalidRequest(String::from_str("memory record actor_id is required")),
            );
        }
        if is_blank(self.content.as_str()) && !self.has_artifact {
            return Err(
                Error::InvalidRequest(
                    String::from_str("memory record content or artifact is required"),
                ),
            );
        }
        match &self.episode {
            Some(episode) => episode.validate_for_record(
                self.id.as_str(),
                self.scope.actor_id.as_str(),
            ),
            None => Ok(()),
        }
    }
}

} // verus!
