//! The cues a recall score is built from: the text of an episode, what a
//! query asks of a record's episode, and the temporal hints it carries. The
//! scores themselves weigh these cues.

use vstd::prelude::*;
use crate::keys::spec_or_empty;
use crate::model::{EpisodeFrame, RecordFrame};
use crate::scorer::{
    has_boundary_intent, has_duration_intent, has_recurrence_intent, has_sequence_intent,
    matched_terms, spec_boundary_phrases, spec_duration_phrases, spec_matched_terms,
    spec_mentions_any, spec_recurrence_phrases, spec_sequence_phrases,
};
use crate::store::RecallFilterFrame;
use crate::text::{
    ascii_lowercase, contains_text, join_texts, spec_ascii_lowercase, spec_contains,
    spec_join,
};

verus! {

fn or_empty(value: &Option<String>) -> (r: String)
    ensures
        r@ == spec_or_empty(*value),
{
    match value {
        Some(v) => v.clone(),
        None => String::new(),
    }
}

pub open spec fn spec_views(items: Seq<String>) -> Seq<Seq<char>> {
    items.map_values(|t: String| t@)
}

/// The parts of an episode that a query's terms are looked for in.
pub open spec fn spec_episode_parts(e: EpisodeFrame) -> Seq<Seq<char>> {
    seq![
        spec_or_empty(e.summary),
        spec_or_empty(e.goal),
        spec_or_empty(e.outcome),
        spec_join(spec_views(e.actor_ids@), " "@),
        spec_or_empty(e.recurrence_key),
        spec_or_empty(e.boundary_label),
        spec_join(spec_views(e.related_record_ids@), " "@),
        spec_join(spec_views(e.linked_artifact_uris@), " "@),
    ]
}

/// The summary, goal, outcome, actors, recurrence key, boundary label,
/// related records and linked artifacts of an episode, joined by spaces and
/// folded to ASCII lower case.
pub open spec fn spec_episode_haystack(e: EpisodeFrame) -> Seq<char> {
    spec_ascii_lowercase(spec_join(spec_episode_parts(e), " "@))
}

pub fn episode_haystack(episode: &EpisodeFrame) -> (r: String)
    ensures
        r@ == spec_episode_haystack(*episode),
{
    let mut parts: Vec<String> = Vec::new();
    parts.push(or_empty(&episode.summary));
    parts.push(or_empty(&episode.goal));
    parts.push(or_empty(&episode.outcome));
    parts.push(join_texts(&episode.actor_ids, " "));
    parts.push(or_empty(&episode.recurrence_key));
    parts.push(or_empty(&episode.boundary_label));
    parts.push(join_texts(&episode.related_record_ids, " "));
    parts.push(join_texts(&episode.linked_artifact_uris, " "));
    proof {
        assert(parts@.map_values(|t: String| t@) =~= spec_episode_parts(*episode));
    }
    let joined = join_texts(&parts, " ");
    ascii_lowercase(joined.as_str())
}

/// The text a curated scorer matches a query against: the content, summary
/// and source of a record, lower-cased and joined by spaces.
pub open spec fn spec_curated_haystack(
    content: Seq<char>,
    summary: Option<String>,
    source: Seq<char>,
) -> Seq<char> {
    spec_ascii_lowercase(content) + " "@ + spec_ascii_lowercase(spec_or_empty(summary)) + " "@
        + spec_ascii_lowercase(source)
}

pub fn curated_haystack(content: &str, summary: &Option<String>, source: &str) -> (r: String)
    ensures
        r@ == spec_curated_haystack(content@, *summary, source@),
{
    let mut out = ascii_lowercase(content);
    out.append(" ");
    let s = or_empty(summary);
    let lowered = ascii_lowercase(s.as_str());
    out.append(lowered.as_str());
    out.append(" ");
    let src = ascii_lowercase(source);
    out.append(src.as_str());
    out
}

/// What a query asks of a record's episode.
#[derive(Debug, Clone, Copy, PartialEq, Eq)]
pub struct EpisodicCues {
    /// The query filters by this very episode.
    pub episode_matches_filter: bool,
    /// The query asks for unresolved episodes and this one is unresolved.
    pub unresolved: bool,
    /// How many query terms occur in the episode's text.
    pub term_matches: usize,
    /// The query asks "what changed" and the episode has a previous record.
    pub asks_what_changed: bool,
    /// The query asks "what happened next" and the episode has a next record.
    pub asks_what_happened_next: bool,
    /// The query asks "what led" and the episode has causal records.
    pub asks_what_led: bool,
}

/// The episodic cues of a record for a query with terms `terms`; none when
/// the record has no episode.
pub open spec fn spec_episodic_cues(
    record: RecordFrame,
    query_text: Seq<char>,
    filters: RecallFilterFrame,
    terms: Seq<Seq<char>>,
) -> Option<EpisodicCues> {
    match record.episode {
        None => None,
        Some(e) => {
            let lowered = spec_ascii_lowercase(query_text);
            Some(
                EpisodicCues {
                    episode_matches_filter: filters.episode_id matches Some(id) && id@ == e.episode_id@,
                    unresolved: filters.unresolved_only && e.continuity_state.spec_is_unresolved(),
                    term_matches: spec_matched_terms(terms, spec_episode_haystack(e)).len() as usize,
                    asks_what_changed: spec_contains(lowered, "what changed"@)
                        && e.previous_record_id is Some,
                    asks_what_happened_next: spec_contains(lowered, "what happened next"@)
                        && e.next_record_id is Some,
                    asks_what_led: spec_contains(lowered, "what led"@) && e.causal_record_ids@.len()
                        > 0,
                },
            )
        },
    }
}

pub fn episodic_cues(
    record: &RecordFrame,
    query_text: &str,
    filters: &RecallFilterFrame,
    terms: &Vec<String>,
) -> (r: Option<EpisodicCues>)
    ensures
        r == spec_episodic_cues(*record, query_text@, *filters, spec_views(terms@)),
{
    match &record.episode {
        None => None,
        Some(e) => {
            let episode_matches_filter = match &filters.episode_id {
                Some(id) => crate::text::text_eq(id.as_str(), e.episode_id.as_str()),
                None => false,
            };
            let unresolved = filters.unresolved_only && e.continuity_state.is_unresolved();
            let hay = episode_haystack(e);
            let hits = matched_terms(terms, hay.as_str());
            proof {
                assert(hits@.map_values(|t: String| t@).len() == hits@.len());
            }
            let lowered = ascii_lowercase(query_text);
            let asks_what_changed = contains_text(lowered.as_str(), "what changed")
                && e.previous_record_id.is_some();
            let asks_what_happened_next = contains_text(lowered.as_str(), "what happened next")
                && e.next_record_id.is_some();
            let asks_what_led = contains_text(lowered.as_str(), "what led")
                && e.causal_record_ids.len() > 0;
            Some(
                EpisodicCues {
                    episode_matches_filter,
                    unresolved,
                    term_matches: hits.len(),
                    asks_what_changed,
                    asks_what_happened_next,
                    asks_what_led,
                },
            )
        },
    }
}

/// The temporal hints of a record's episode that a query asks about.
#[derive(Debug, Clone, Copy, PartialEq, Eq)]
pub struct TemporalCues {
    /// The query asks about order in time and the episode links to
    /// neighbouring or causal records.
    pub sequence_linked: bool,
    /// The query asks about duration: the episode's duration, when known.
    pub duration_ms: Option<u64>,
    /// The query asks about recurrence and the episode has a recurrence key.
    pub recurrence_keyed: bool,
    /// The query asks about recurrence: the episode's recurrence interval.
    pub recurrence_interval_ms: Option<u64>,
    /// The query asks about boundaries and the episode has a boundary label.
    pub boundary_labeled: bool,
    /// The query asks about boundaries and the record belongs to a session
    /// or a conversation.
    pub boundary_scoped: bool,
}

/// The temporal cues of a record for a query; none when the record has no
/// episode.
pub open spec fn spec_temporal_cues(record: RecordFrame, query_text: Seq<char>) -> Option<TemporalCues> {
    match record.episode {
        None => None,
        Some(e) => {
            let sequence = spec_mentions_any(query_text, spec_sequence_phrases());
            let duration = spec_mentions_any(query_text, spec_duration_phrases());
            let recurrence = spec_mentions_any(query_text, spec_recurrence_phrases());
            let boundary = spec_mentions_any(query_text, spec_boundary_phrases());
            Some(
                TemporalCues {
                    sequence_linked: sequence && (e.previous_record_id is Some
                        || e.next_record_id is Some || e.causal_record_ids@.len() > 0),
                    duration_ms: if duration {
                        e.spec_duration_hint_ms()
                    } else {
                        None
                    },
                    recurrence_keyed: recurrence && e.recurrence_key is Some,
                    recurrence_interval_ms: if recurrence {
                        e.recurrence_interval_ms
                    } else {
                        None
                    },
                    boundary_labeled: boundary && e.boundary_label is Some,
                    boundary_scoped: boundary && (record.scope.session_id is Some
                        || record.scope.conversation_id is Some),
                },
            )
        },
    }
}

pub fn temporal_cues(record: &RecordFrame, query_text: &str) -> (r: Option<TemporalCues>)
    ensures
        r == spec_temporal_cues(*record, query_text@),
{
    match &record.episode {
        None => None,
        Some(e) => {
            let sequence = has_sequence_intent(query_text);
            let duration = has_duration_intent(query_text);
            let recurrence = has_recurrence_intent(query_text);
            let boundary = has_boundary_intent(query_text);
            let linked = e.previous_record_id.is_some() || e.next_record_id.is_some()
                || e.causal_record_ids.len() > 0;
            Some(
                TemporalCues {
                    sequence_linked: sequence && linked,
                    duration_ms: if duration {
                        e.duration_hint_ms()
                    } else {
                        None
                    },
                    recurrence_keyed: recurrence && e.recurrence_key.is_some(),
                    recurrence_interval_ms: if recurrence {
                        e.recurrence_interval_ms
                    } else {
                        None
                    },
                    boundary_labeled: boundary && e.boundary_label.is_some(),
                    boundary_scoped: boundary && (record.scope.session_id.is_some()
                        || record.scope.conversation_id.is_some()),
                },
            )
        },
    }
}

} // verus!
