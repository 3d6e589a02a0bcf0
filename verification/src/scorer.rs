//! Recall scorers and the recall planner: which scorer and profiles an
//! engine configuration selects, the notes a recall explanation carries,
//! how a query is read (its terms and its intents), which channels a
//! candidate came through, and the links along which the planner expands a
//! recall from its seed candidates.

use vstd::prelude::*;
use crate::config::{
    EngineConfig, RecallPlanningProfile, RecallPolicyProfile, RecallScorerKind,
    RecallScoringProfile,
};
use crate::embedding::{ConfiguredSemanticEmbedder, DisabledEmbedder};
use crate::model::{spec_seq_has, RecordFrame};
use crate::query::RecallCandidateSource;
use crate::store::RecallFilterFrame;
use crate::text::{
    ascii_lowercase, contains_text, spec_ascii_lowercase, spec_contains, spec_words, words,
};

verus! {

/// The note naming a scoring profile in recall explanations.
pub open spec fn spec_scoring_profile_note(profile: RecallScoringProfile) -> Seq<char> {
    match profile {
        RecallScoringProfile::Balanced => "scoring_profile=balanced"@,
        RecallScoringProfile::LexicalFirst => "scoring_profile=lexical_first"@,
        RecallScoringProfile::ImportanceFirst => "scoring_profile=importance_first"@,
    }
}

/// The note naming a policy profile in recall explanations.
pub open spec fn spec_policy_profile_note(profile: RecallPolicyProfile) -> Seq<char> {
    match profile {
        RecallPolicyProfile::General => "policy_profile=general"@,
        RecallPolicyProfile::Support => "policy_profile=support"@,
        RecallPolicyProfile::Research => "policy_profile=research"@,
        RecallPolicyProfile::Assistant => "policy_profile=assistant"@,
        RecallPolicyProfile::AutonomousAgent => "policy_profile=autonomous_agent"@,
    }
}

fn scoring_profile_note(profile: RecallScoringProfile) -> (r: &'static str)
    ensures
        r@ == spec_scoring_profile_note(profile),
{
    match profile {
        RecallScoringProfile::Balanced => "scoring_profile=balanced",
        RecallScoringProfile::LexicalFirst => "scoring_profile=lexical_first",
        RecallScoringProfile::ImportanceFirst => "scoring_profile=importance_first",
    }
}

fn policy_profile_note(profile: RecallPolicyProfile) -> (r: &'static str)
    ensures
        r@ == spec_policy_profile_note(profile),
{
    match profile {
        RecallPolicyProfile::General => "policy_profile=general",
        RecallPolicyProfile::Support => "policy_profile=support",
        RecallPolicyProfile::Research => "policy_profile=research",
        RecallPolicyProfile::Assistant => "policy_profile=assistant",
        RecallPolicyProfile::AutonomousAgent => "policy_profile=autonomous_agent",
    }
}

/// The scorer that weights lexical, semantic and importance evidence by a
/// scoring profile.
#[derive(Debug, Clone, Copy, PartialEq, Eq)]
pub struct ProfileRecallScorer {
    pub profile: RecallScoringProfile,
    pub policy_profile: RecallPolicyProfile,
    pub embedder: ConfiguredSemanticEmbedder,
}

impl ProfileRecallScorer {
    /// A scorer with the general policy and no embeddings.
    pub fn new(profile: RecallScoringProfile) -> (r: Self)
        ensures
            r.profile == profile,
            r.policy_profile == RecallPolicyProfile::General,
            r.embedder == ConfiguredSemanticEmbedder::Disabled(DisabledEmbedder),
    {
        Self::with_embedder(
            profile,
            RecallPolicyProfile::General,
            ConfiguredSemanticEmbedder::Disabled(DisabledEmbedder),
        )
    }

    pub fn with_embedder(
        profile: RecallScoringProfile,
        policy_profile: RecallPolicyProfile,
        embedder: ConfiguredSemanticEmbedder,
    ) -> (r: Self)
        ensures
            r == (Self { profile, policy_profile, embedder }),
    {
        Self { profile, policy_profile, embedder }
    }

    pub fn profile(&self) -> (r: RecallScoringProfile)
        ensures
            r == self.profile,
    {
        self.profile
    }

    pub fn scorer_kind(&self) -> (r: RecallScorerKind)
        ensures
            r == RecallScorerKind::Profile,
    {
        RecallScorerKind::Profile
    }

    pub fn scoring_profile(&self) -> (r: RecallScoringProfile)
        ensures
            r == self.profile,
    {
        self.profile
    }

    pub fn policy_profile(&self) -> (r: RecallPolicyProfile)
        ensures
            r == self.policy_profile,
    {
        self.policy_profile
    }

    pub fn profile_note(&self) -> (r: &'static str)
        ensures
            r@ == spec_scoring_profile_note(self.profile),
    {
        scoring_profile_note(self.profile)
    }

    pub fn policy_profile_note(&self) -> (r: &'static str)
        ensures
            r@ == spec_policy_profile_note(self.policy_profile),
    {
        policy_profile_note(self.policy_profile)
    }

    pub fn embedding_note(&self) -> (r: Option<String>)
        ensures
            match r {
                Some(s) => self.embedder.spec_provider_note() == Some(s@),
                None => self.embedder.spec_provider_note() is None,
            },
    {
        self.embedder.provider_note()
    }
}

/// The scorer that also rewards curated (verified, trusted) records.
#[derive(Debug, Clone, Copy, PartialEq, Eq)]
pub struct CuratedRecallScorer {
    pub profile: RecallScoringProfile,
    pub policy_profile: RecallPolicyProfile,
    pub embedder: ConfiguredSemanticEmbedder,
}

impl CuratedRecallScorer {
    /// A scorer with the general policy and no embeddings.
    pub fn new(profile: RecallScoringProfile) -> (r: Self)
        ensures
            r.profile == profile,
            r.policy_profile == RecallPolicyProfile::General,
            r.embedder == ConfiguredSemanticEmbedder::Disabled(DisabledEmbedder),
    {
        Self::with_embedder(
            profile,
            RecallPolicyProfile::General,
            ConfiguredSemanticEmbedder::Disabled(DisabledEmbedder),
        )
    }

    pub fn with_embedder(
        profile: RecallScoringProfile,
        policy_profile: RecallPolicyProfile,
        embedder: ConfiguredSemanticEmbedder,
    ) -> (r: Self)
        ensures
            r == (Self { profile, policy_profile, embedder }),
    {
        Self { profile, policy_profile, embedder }
    }

    pub fn scorer_kind(&self) -> (r: RecallScorerKind)
        ensures
            r == RecallScorerKind::Curated,
    {
        RecallScorerKind::Curated
    }

    pub fn scoring_profile(&self) -> (r: RecallScoringProfile)
        ensures
            r == self.profile,
    {
        self.profile
    }

    pub fn policy_profile(&self) -> (r: RecallPolicyProfile)
        ensures
            r == self.policy_profile,
    {
        self.policy_profile
    }

    pub fn profile_note(&self) -> (r: &'static str)
        ensures
            r@ == spec_scoring_profile_note(self.profile),
    {
        scoring_profile_note(self.profile)
    }

    pub fn policy_profile_note(&self) -> (r: &'static str)
        ensures
            r@ == spec_policy_profile_note(self.policy_profile),
    {
        policy_profile_note(self.policy_profile)
    }

    pub fn embedding_note(&self) -> (r: Option<String>)
        ensures
            match r {
                Some(s) => self.embedder.spec_provider_note() == Some(s@),
                None => self.embedder.spec_provider_note() is None,
            },
    {
        self.embedder.provider_note()
    }
}

/// The scorer an engine configuration selects.
#[derive(Debug, Clone, Copy, PartialEq, Eq)]
pub enum ConfiguredRecallScorer {
    Profile(ProfileRecallScorer),
    Curated(CuratedRecallScorer),
}

impl ConfiguredRecallScorer {
    pub open spec fn spec_scorer_kind(&self) -> RecallScorerKind {
        match self {
            ConfiguredRecallScorer::Profile(_) => RecallScorerKind::Profile,
            ConfiguredRecallScorer::Curated(_) => RecallScorerKind::Curated,
        }
    }

    pub open spec fn spec_scoring_profile(&self) -> RecallScoringProfile {
        match self {
            ConfiguredRecallScorer::Profile(s) => s.profile,
            ConfiguredRecallScorer::Curated(s) => s.profile,
        }
    }

    pub open spec fn spec_policy_profile(&self) -> RecallPolicyProfile {
        match self {
            ConfiguredRecallScorer::Profile(s) => s.policy_profile,
            ConfiguredRecallScorer::Curated(s) => s.policy_profile,
        }
    }

    pub open spec fn spec_embedder(&self) -> ConfiguredSemanticEmbedder {
        match self {
            ConfiguredRecallScorer::Profile(s) => s.embedder,
            ConfiguredRecallScorer::Curated(s) => s.embedder,
        }
    }

    /// The scorer of the configured kind, with the configured scoring and
    /// policy profiles and the configured embedder (its provider, and its
    /// dimensions: at least one for the local provider, none when disabled).
    pub open spec fn spec_configured_by(&self, config: EngineConfig) -> bool {
        &&& self.spec_scorer_kind() == config.recall_scorer_kind
        &&& self.spec_scoring_profile() == config.recall_scoring_profile
        &&& self.spec_policy_profile() == config.recall_policy_profile
        &&& self.spec_embedder().spec_provider_kind() == config.embedding_provider_kind
        &&& config.embedding_provider_kind == crate::config::EmbeddingProviderKind::DeterministicLocal
            ==> self.spec_embedder().spec_dimensions() == if config.embedding_dimensions == 0 {
            1
        } else {
            config.embedding_dimensions
        }
        &&& config.embedding_provider_kind == crate::config::EmbeddingProviderKind::Disabled
            ==> self.spec_embedder().spec_dimensions() == 0
    }

    pub fn from_engine_config(config: &EngineConfig) -> (r: Self)
        ensures
            r.spec_configured_by(*config),
    {
        let embedder = ConfiguredSemanticEmbedder::from_engine_config(config);
        Self::with_embedder(
            config.recall_scorer_kind,
            config.recall_scoring_profile,
            config.recall_policy_profile,
            embedder,
        )
    }

    pub fn with_embedder(
        scorer_kind: RecallScorerKind,
        scoring_profile: RecallScoringProfile,
        policy_profile: RecallPolicyProfile,
        embedder: ConfiguredSemanticEmbedder,
    ) -> (r: Self)
        ensures
            r.spec_scorer_kind() == scorer_kind,
            r.spec_scoring_profile() == scoring_profile,
            r.spec_policy_profile() == policy_profile,
            r.spec_embedder() == embedder,
    {
        match scorer_kind {
            RecallScorerKind::Profile => ConfiguredRecallScorer::Profile(
                ProfileRecallScorer::with_embedder(scoring_profile, policy_profile, embedder),
            ),
            RecallScorerKind::Curated => ConfiguredRecallScorer::Curated(
                CuratedRecallScorer::with_embedder(scoring_profile, policy_profile, embedder),
            ),
        }
    }

    pub fn scorer_kind(&self) -> (r: RecallScorerKind)
        ensures
            r == self.spec_scorer_kind(),
    {
        match self {
            ConfiguredRecallScorer::Profile(s) => s.scorer_kind(),
            ConfiguredRecallScorer::Curated(s) => s.scorer_kind(),
        }
    }

    pub fn scoring_profile(&self) -> (r: RecallScoringProfile)
        ensures
            r == self.spec_scoring_profile(),
    {
        match self {
            ConfiguredRecallScorer::Profile(s) => s.scoring_profile(),
            ConfiguredRecallScorer::Curated(s) => s.scoring_profile(),
        }
    }

    pub fn policy_profile(&self) -> (r: RecallPolicyProfile)
        ensures
            r == self.spec_policy_profile(),
    {
        match self {
            ConfiguredRecallScorer::Profile(s) => s.policy_profile(),
            ConfiguredRecallScorer::Curated(s) => s.policy_profile(),
        }
    }

    pub fn profile_note(&self) -> (r: &'static str)
        ensures
            r@ == spec_scoring_profile_note(self.spec_scoring_profile()),
    {
        match self {
            ConfiguredRecallScorer::Profile(s) => s.profile_note(),
            ConfiguredRecallScorer::Curated(s) => s.profile_note(),
        }
    }

    pub fn policy_profile_note(&self) -> (r: &'static str)
        ensures
            r@ == spec_policy_profile_note(self.spec_policy_profile()),
    {
        match self {
            ConfiguredRecallScorer::Profile(s) => s.policy_profile_note(),
            ConfiguredRecallScorer::Curated(s) => s.policy_profile_note(),
        }
    }

    pub fn embedding_note(&self) -> (r: Option<String>)
        ensures
            match r {
                Some(s) => self.spec_embedder().spec_provider_note() == Some(s@),
                None => self.spec_embedder().spec_provider_note() is None,
            },
    {
        match self {
            ConfiguredRecallScorer::Profile(s) => s.embedding_note(),
            ConfiguredRecallScorer::Curated(s) => s.embedding_note(),
        }
    }
}

// ----- reading a query -----

/// The text folded to ASCII lower case contains one of the phrases.
pub open spec fn spec_mentions_any(query_text: Seq<char>, phrases: Seq<Seq<char>>) -> bool {
    exists|i: int| 0 <= i < phrases.len() && spec_contains(spec_ascii_lowercase(query_text), #[trigger] phrases[i])
}

pub open spec fn spec_sequence_phrases() -> Seq<Seq<char>> {
    seq!["timeline"@, "before"@, "after"@, "first"@, "last"@, "sequence"@]
}

pub open spec fn spec_duration_phrases() -> Seq<Seq<char>> {
    seq!["how long"@, "duration"@, "lasting"@, "long-running"@, "long running"@]
}

pub open spec fn spec_recurrence_phrases() -> Seq<Seq<char>> {
    seq!["recurring"@, "repeat"@, "repeats"@, "again"@, "every "@, "habit"@]
}

pub open spec fn spec_boundary_phrases() -> Seq<Seq<char>> {
    seq!["boundary"@, "handoff"@, "checkpoint"@, "session"@, "window"@]
}

pub open spec fn spec_continuity_phrases() -> Seq<Seq<char>> {
    seq![
        "what led"@,
        "what changed"@,
        "what happened next"@,
        "unresolved"@,
        "follow up"@,
        "follow-up"@,
        "same episode"@,
    ]
}

/// Whether the lower-cased text contains one of the phrases.
fn mentions_any(lowered: &str, phrases: &Vec<&str>) -> (r: bool)
    ensures
        r == exists|i: int| 0 <= i < phrases@.len() && spec_contains(lowered@, #[trigger] phrases@[i]@),
{
    let n = phrases.len();
    let mut i: usize = 0;
    while i < n
        invariant
            n == phrases@.len(),
            i <= n,
            forall|j: int| 0 <= j < i ==> !spec_contains(lowered@, #[trigger] phrases@[j]@),
        decreases n - i,
    {
        if contains_text(lowered, phrases[i]) {
            return true;
        }
        i += 1;
    }
    false
}

proof fn lemma_phrase_views(phrases: Seq<&str>, expected: Seq<Seq<char>>, lowered: Seq<char>)
    requires
        phrases.len() == expected.len(),
        forall|i: int| 0 <= i < phrases.len() ==> #[trigger] phrases[i]@ == expected[i],
    ensures
        (exists|i: int| 0 <= i < phrases.len() && spec_contains(lowered, #[trigger] phrases[i]@))
            == (exists|i: int| 0 <= i < expected.len() && spec_contains(lowered, #[trigger] expected[i])),
{
    if exists|i: int| 0 <= i < phrases.len() && spec_contains(lowered, #[trigger] phrases[i]@) {
        let i = choose|i: int| 0 <= i < phrases.len() && spec_contains(lowered, #[trigger] phrases[i]@);
        assert(spec_contains(lowered, expected[i]));
    }
    if exists|i: int| 0 <= i < expected.len() && spec_contains(lowered, #[trigger] expected[i]) {
        let i = choose|i: int| 0 <= i < expected.len() && spec_contains(lowered, #[trigger] expected[i]);
        assert(spec_contains(lowered, phrases[i]@));
    }
}

/// Whether the query asks about order in time ("before", "timeline", ...).
pub fn has_sequence_intent(query_text: &str) -> (r: bool)
    ensures
        r == spec_mentions_any(query_text@, spec_sequence_phrases()),
{
    let lowered = ascii_lowercase(query_text);
    let phrases = vec!["timeline", "before", "after", "first", "last", "sequence"];
    let r = mentions_any(lowered.as_str(), &phrases);
    proof {
        lemma_phrase_views(phrases@, spec_sequence_phrases(), lowered@);
    }
    r
}

/// Whether the query asks how long something lasted.
pub fn has_duration_intent(query_text: &str) -> (r: bool)
    ensures
        r == spec_mentions_any(query_text@, spec_duration_phrases()),
{
    let lowered = ascii_lowercase(query_text);
    let phrases = vec!["how long", "duration", "lasting", "long-running", "long running"];
    let r = mentions_any(lowered.as_str(), &phrases);
    proof {
        lemma_phrase_views(phrases@, spec_duration_phrases(), lowered@);
    }
    r
}

/// Whether the query asks about something that recurs.
pub fn has_recurrence_intent(query_text: &str) -> (r: bool)
    ensures
        r == spec_mentions_any(query_text@, spec_recurrence_phrases()),
{
    let lowered = ascii_lowercase(query_text);
    let phrases = vec!["recurring", "repeat", "repeats", "again", "every ", "habit"];
    let r = mentions_any(lowered.as_str(), &phrases);
    proof {
        lemma_phrase_views(phrases@, spec_recurrence_phrases(), lowered@);
    }
    r
}

/// Whether the query asks about a session boundary or hand-off.
pub fn has_boundary_intent(query_text: &str) -> (r: bool)
    ensures
        r == spec_mentions_any(query_text@, spec_boundary_phrases()),
{
    let lowered = ascii_lowercase(query_text);
    let phrases = vec!["boundary", "handoff", "checkpoint", "session", "window"];
    let r = mentions_any(lowered.as_str(), &phrases);
    proof {
        lemma_phrase_views(phrases@, spec_boundary_phrases(), lowered@);
    }
    r
}

/// Whether the query follows a thread of events ("what led", "unresolved", ...).
pub fn has_continuity_intent(query_text: &str) -> (r: bool)
    ensures
        r == spec_mentions_any(query_text@, spec_continuity_phrases()),
{
    let lowered = ascii_lowercase(query_text);
    let phrases = vec![
        "what led",
        "what changed",
        "what happened next",
        "unresolved",
        "follow up",
        "follow-up",
        "same episode",
    ];
    let r = mentions_any(lowered.as_str(), &phrases);
    proof {
        lemma_phrase_views(phrases@, spec_continuity_phrases(), lowered@);
    }
    r
}

/// The terms of a query: its white-space separated words in ASCII lower case.
pub open spec fn spec_query_terms(query_text: Seq<char>) -> Seq<Seq<char>> {
    spec_words(query_text).map_values(|w: Seq<char>| spec_ascii_lowercase(w))
}

pub fn tokenize_query(query_text: &str) -> (r: Vec<String>)
    ensures
        r@.map_values(|t: String| t@) == spec_query_terms(query_text@),
{
    let ws = words(query_text);
    let n = ws.len();
    let mut out: Vec<String> = Vec::new();
    let mut i: usize = 0;
    while i < n
        invariant
            n == ws@.len(),
            i <= n,
            ws@.map_values(|w: String| w@) == spec_words(query_text@),
            out@.len() == i,
            forall|j: int| 0 <= j < i ==> (#[trigger] out@[j])@ == spec_ascii_lowercase(ws@[j]@),
        decreases n - i,
    {
        let t = ascii_lowercase(ws[i].as_str());
        out.push(t);
        i += 1;
    }
    proof {
        let lhs = out@.map_values(|t: String| t@);
        let rhs = spec_query_terms(query_text@);
        assert forall|j: int| 0 <= j < n implies lhs[j] == rhs[j] by {
            assert(spec_words(query_text@)[j] == ws@.map_values(|w: String| w@)[j]);
        }
        assert(lhs =~= rhs);
    }
    out
}

/// The text a query is matched against lexically: the record's content and
/// summary, lower-cased and joined by a space.
pub open spec fn spec_lexical_haystack(content: Seq<char>, summary: Option<String>) -> Seq<char> {
    spec_ascii_lowercase(content) + " "@ + match summary {
        Some(s) => spec_ascii_lowercase(s@),
        None => Seq::<char>::empty(),
    }
}

pub fn lexical_haystack(content: &str, summary: &Option<String>) -> (r: String)
    ensures
        r@ == spec_lexical_haystack(content@, *summary),
{
    let mut out = ascii_lowercase(content);
    out.append(" ");
    match summary {
        Some(s) => {
            let lowered = ascii_lowercase(s.as_str());
            out.append(lowered.as_str());
        },
        None => {},
    }
    out
}

/// The query terms that occur in the haystack, in query order.
pub open spec fn spec_matched_terms(terms: Seq<Seq<char>>, haystack: Seq<char>) -> Seq<Seq<char>> {
    terms.filter(|t: Seq<char>| spec_contains(haystack, t))
}

pub fn matched_terms(terms: &Vec<String>, haystack: &str) -> (r: Vec<String>)
    ensures
        r@.map_values(|t: String| t@) == spec_matched_terms(
            terms@.map_values(|t: String| t@),
            haystack@,
        ),
{
    let ghost views = terms@.map_values(|t: String| t@);
    let n = terms.len();
    let mut out: Vec<String> = Vec::new();
    let mut i: usize = 0;
    while i < n
        invariant
            n == terms@.len(),
            views == terms@.map_values(|t: String| t@),
            i <= n,
            out@.map_values(|t: String| t@) == spec_matched_terms(
                views.subrange(0, i as int),
                haystack@,
            ),
        decreases n - i,
    {
        let ghost before = out@.map_values(|t: String| t@);
        proof {
            assert(views.subrange(0, i + 1) =~= views.subrange(0, i as int).push(views[i as int]));
            views.subrange(0, i as int).lemma_filter_push(
                views[i as int],
                |t: Seq<char>| spec_contains(haystack@, t),
            );
        }
        if contains_text(haystack, terms[i].as_str()) {
            out.push(terms[i].clone());
            proof {
                assert(out@.map_values(|t: String| t@) =~= before.push(terms@[i as int]@));
            }
        } else {
            proof {
                assert(out@.map_values(|t: String| t@) =~= before);
            }
        }
        i += 1;
    }
    proof {
        assert(views.subrange(0, n as int) =~= views);
    }
    out
}

/// Whether the lower-cased text contains one of the terms.
pub open spec fn spec_mentions_term(text: Seq<char>, terms: Seq<Seq<char>>) -> bool {
    exists|i: int| 0 <= i < terms.len() && spec_contains(spec_ascii_lowercase(text), #[trigger] terms[i])
}

pub fn mentions_term(text: &str, terms: &Vec<String>) -> (r: bool)
    ensures
        r == spec_mentions_term(text@, terms@.map_values(|t: String| t@)),
{
    let lowered = ascii_lowercase(text);
    let n = terms.len();
    let mut i: usize = 0;
    while i < n
        invariant
            n == terms@.len(),
            lowered@ == spec_ascii_lowercase(text@),
            i <= n,
            forall|j: int| 0 <= j < i ==> !spec_contains(lowered@, #[trigger] terms@[j]@),
        decreases n - i,
    {
        if contains_text(lowered.as_str(), terms[i].as_str()) {
            proof {
                let views = terms@.map_values(|t: String| t@);
                assert(spec_contains(spec_ascii_lowercase(text@), views[i as int]));
            }
            return true;
        }
        i += 1;
    }
    proof {
        let views = terms@.map_values(|t: String| t@);
        assert forall|j: int| 0 <= j < views.len() implies !spec_contains(
            spec_ascii_lowercase(text@),
            #[trigger] views[j],
        ) by {
            assert(views[j] == terms@[j]@);
        }
    }
    false
}

/// How many labels, lower-cased, contain one of the query terms.
pub open spec fn spec_label_matches(labels: Seq<String>, terms: Seq<Seq<char>>) -> nat
    decreases labels.len(),
{
    if labels.len() == 0 {
        0
    } else {
        spec_label_matches(labels.drop_last(), terms) + if spec_mentions_term(labels.last()@, terms) {
            1nat
        } else {
            0nat
        }
    }
}

pub fn label_matches(labels: &Vec<String>, terms: &Vec<String>) -> (r: usize)
    ensures
        r == spec_label_matches(labels@, terms@.map_values(|t: String| t@)),
{
    let ghost tv = terms@.map_values(|t: String| t@);
    let n = labels.len();
    let mut count: usize = 0;
    let mut i: usize = 0;
    while i < n
        invariant
            n == labels@.len(),
            tv == terms@.map_values(|t: String| t@),
            i <= n,
            count <= i,
            count == spec_label_matches(labels@.subrange(0, i as int), tv),
        decreases n - i,
    {
        let hit = mentions_term(labels[i].as_str(), terms);
        proof {
            let s = labels@.subrange(0, i + 1);
            assert(s.drop_last() =~= labels@.subrange(0, i as int));
            assert(s.last() == labels@[i as int]);
        }
        if hit {
            count += 1;
        }
        i += 1;
    }
    proof {
        assert(labels@.subrange(0, n as int) =~= labels@);
    }
    count
}

// ----- candidate channels -----

/// The evidence a candidate was found by.
#[derive(Debug, Clone, Copy, PartialEq, Eq)]
pub struct CandidateSignals {
    pub lexical: bool,
    pub semantic: bool,
    pub metadata: bool,
    pub episodic: bool,
    pub graph: bool,
    pub temporal: bool,
    pub provenance: bool,
}

/// The channels of a candidate, each once, in the order of
/// `RecallCandidateSource`.
pub open spec fn spec_candidate_sources(s: CandidateSignals) -> Seq<RecallCandidateSource> {
    (if s.lexical { seq![RecallCandidateSource::Lexical] } else { seq![] })
        + (if s.semantic { seq![RecallCandidateSource::Semantic] } else { seq![] })
        + (if s.metadata { seq![RecallCandidateSource::Metadata] } else { seq![] })
        + (if s.episodic { seq![RecallCandidateSource::Episode] } else { seq![] })
        + (if s.graph { seq![RecallCandidateSource::Graph] } else { seq![] })
        + (if s.temporal { seq![RecallCandidateSource::Temporal] } else { seq![] })
        + (if s.provenance { seq![RecallCandidateSource::Provenance] } else { seq![] })
}

fn push_if(out: &mut Vec<RecallCandidateSource>, cond: bool, source: RecallCandidateSource)
    ensures
        final(out)@ == old(out)@ + (if cond { seq![source] } else { seq![] }),
{
    if cond {
        out.push(source);
    }
    proof {
        assert(final(out)@ =~= old(out)@ + (if cond { seq![source] } else { seq![] }));
    }
}

pub fn candidate_sources(signals: &CandidateSignals) -> (r: Vec<RecallCandidateSource>)
    ensures
        r@ == spec_candidate_sources(*signals),
{
    let mut out: Vec<RecallCandidateSource> = Vec::new();
    push_if(&mut out, signals.lexical, RecallCandidateSource::Lexical);
    push_if(&mut out, signals.semantic, RecallCandidateSource::Semantic);
    push_if(&mut out, signals.metadata, RecallCandidateSource::Metadata);
    push_if(&mut out, signals.episodic, RecallCandidateSource::Episode);
    push_if(&mut out, signals.graph, RecallCandidateSource::Graph);
    push_if(&mut out, signals.temporal, RecallCandidateSource::Temporal);
    push_if(&mut out, signals.provenance, RecallCandidateSource::Provenance);
    proof {
        assert(out@ =~= spec_candidate_sources(*signals));
    }
    out
}

/// The channels of a seed candidate: lexical when a term matched, semantic,
/// metadata and episodic when their scores are positive, temporal when the
/// query is empty or the temporal score is positive.
pub fn seed_candidate_sources(
    matched_terms: usize,
    semantic_positive: bool,
    metadata_positive: bool,
    episodic_positive: bool,
    temporal_positive: bool,
    empty_query: bool,
) -> (r: Vec<RecallCandidateSource>)
    ensures
        r@ == spec_candidate_sources(
            CandidateSignals {
                lexical: matched_terms > 0,
                semantic: semantic_positive,
                metadata: metadata_positive,
                episodic: episodic_positive,
                graph: false,
                temporal: empty_query || temporal_positive,
                provenance: false,
            },
        ),
{
    let signals = CandidateSignals {
        lexical: matched_terms > 0,
        semantic: semantic_positive,
        metadata: metadata_positive,
        episodic: episodic_positive,
        graph: false,
        temporal: empty_query || temporal_positive,
        provenance: false,
    };
    candidate_sources(&signals)
}


// ----- graph expansion -----

/// The links along which the planner reaches a record from the frontier of
/// a recall, in the order in which they are reported.
#[derive(Debug, Clone, Copy, PartialEq, Eq, Structural)]
pub enum GraphExpansionRelation {
    EpisodeMembership,
    Chronology,
    Causal,
    Related,
    Lineage,
}

/// The texts of a list, as a set.
pub open spec fn spec_id_set(ids: Seq<String>) -> Set<Seq<char>> {
    Set::new(|x: Seq<char>| spec_seq_has(ids, x))
}

/// Some text of `items` is in `set`.
pub open spec fn spec_any_in(items: Seq<String>, set: Set<Seq<char>>) -> bool {
    exists|i: int| 0 <= i < items.len() && set.contains(#[trigger] items[i]@)
}

pub open spec fn spec_option_in(value: Option<String>, set: Set<Seq<char>>) -> bool {
    value matches Some(v) && set.contains(v@)
}

/// Some lineage link of the record points into `set`.
pub open spec fn spec_lineage_in(record: RecordFrame, set: Set<Seq<char>>) -> bool {
    exists|i: int| 0 <= i < record.lineage@.len() && set.contains(#[trigger] record.lineage@[i].record_id@)
}

/// How a record is linked to a frontier of record ids and episode ids: by
/// its episode, by the chronology of its episode (previous or next record),
/// by causes or related records of its episode, or by lineage; each kind
/// once, in the order of `GraphExpansionRelation`.
pub open spec fn spec_graph_relations(
    record: RecordFrame,
    ids: Set<Seq<char>>,
    episodes: Set<Seq<char>>,
) -> Seq<GraphExpansionRelation> {
    (match record.episode {
        Some(e) => (if episodes.contains(e.episode_id@) {
            seq![GraphExpansionRelation::EpisodeMembership]
        } else {
            seq![]
        }) + (if spec_option_in(e.previous_record_id, ids) || spec_option_in(e.next_record_id, ids) {
            seq![GraphExpansionRelation::Chronology]
        } else {
            seq![]
        }) + (if spec_any_in(e.causal_record_ids@, ids) {
            seq![GraphExpansionRelation::Causal]
        } else {
            seq![]
        }) + (if spec_any_in(e.related_record_ids@, ids) {
            seq![GraphExpansionRelation::Related]
        } else {
            seq![]
        }),
        None => seq![],
    }) + (if spec_lineage_in(record, ids) {
        seq![GraphExpansionRelation::Lineage]
    } else {
        seq![]
    })
}

proof fn lemma_id_set_has(ids: Seq<String>, x: Seq<char>)
    ensures
        spec_id_set(ids).contains(x) == spec_seq_has(ids, x),
{
}

proof fn lemma_id_set_push(ids: Seq<String>, s: String)
    ensures
        spec_id_set(ids.push(s)) == spec_id_set(ids).insert(s@),
{
    let a = spec_id_set(ids.push(s));
    let b = spec_id_set(ids).insert(s@);
    assert forall|x: Seq<char>| a.contains(x) == b.contains(x) by {
        if spec_seq_has(ids.push(s), x) {
            let i = choose|i: int| 0 <= i < ids.push(s).len() && #[trigger] ids.push(s)[i]@ == x;
            if i < ids.len() {
                assert(ids[i]@ == x);
            }
        }
        if spec_seq_has(ids, x) {
            let i = choose|i: int| 0 <= i < ids.len() && #[trigger] ids[i]@ == x;
            assert(ids.push(s)[i]@ == x);
        }
        if x == s@ {
            assert(ids.push(s)[ids.len() as int]@ == x);
        }
    }
    assert(a =~= b);
}

proof fn lemma_id_set_empty(ids: Seq<String>)
    ensures
        (ids.len() == 0) == (spec_id_set(ids) == Set::<Seq<char>>::empty()),
{
    if ids.len() == 0 {
        assert(spec_id_set(ids) =~= Set::<Seq<char>>::empty());
    } else {
        assert(spec_id_set(ids).contains(ids[0]@));
    }
}

fn any_listed(items: &Vec<String>, set: &Vec<String>) -> (r: bool)
    ensures
        r == spec_any_in(items@, spec_id_set(set@)),
{
    let n = items.len();
    let mut i: usize = 0;
    while i < n
        invariant
            n == items@.len(),
            i <= n,
            forall|j: int| 0 <= j < i ==> !spec_id_set(set@).contains(#[trigger] items@[j]@),
        decreases n - i,
    {
        if crate::text::list_contains(set, items[i].as_str()) {
            proof {
                lemma_id_set_has(set@, items@[i as int]@);
            }
            return true;
        }
        proof {
            lemma_id_set_has(set@, items@[i as int]@);
        }
        i += 1;
    }
    false
}

fn option_listed(value: &Option<String>, set: &Vec<String>) -> (r: bool)
    ensures
        r == spec_option_in(*value, spec_id_set(set@)),
{
    match value {
        Some(v) => {
            let r = crate::text::list_contains(set, v.as_str());
            proof {
                lemma_id_set_has(set@, v@);
            }
            r
        },
        None => false,
    }
}

fn lineage_listed(record: &RecordFrame, set: &Vec<String>) -> (r: bool)
    ensures
        r == spec_lineage_in(*record, spec_id_set(set@)),
{
    let n = record.lineage.len();
    let mut i: usize = 0;
    while i < n
        invariant
            n == record.lineage@.len(),
            i <= n,
            forall|j: int| 0 <= j < i ==> !spec_id_set(set@).contains(#[trigger] record.lineage@[j].record_id@),
        decreases n - i,
    {
        if crate::text::list_contains(set, record.lineage[i].record_id.as_str()) {
            proof {
                lemma_id_set_has(set@, record.lineage@[i as int].record_id@);
            }
            return true;
        }
        proof {
            lemma_id_set_has(set@, record.lineage@[i as int].record_id@);
        }
        i += 1;
    }
    false
}

fn push_relation(out: &mut Vec<GraphExpansionRelation>, cond: bool, rel: GraphExpansionRelation)
    ensures
        final(out)@ == old(out)@ + (if cond { seq![rel] } else { seq![] }),
{
    if cond {
        out.push(rel);
    }
    proof {
        assert(final(out)@ =~= old(out)@ + (if cond { seq![rel] } else { seq![] }));
    }
}

/// The links of a record to the frontier; none unless the planning is
/// continuity-aware.
pub fn graph_relations(
    record: &RecordFrame,
    frontier_ids: &Vec<String>,
    frontier_episode_ids: &Vec<String>,
    profile: RecallPlanningProfile,
) -> (r: Vec<GraphExpansionRelation>)
    ensures
        r@ == if profile == RecallPlanningProfile::ContinuityAware {
            spec_graph_relations(*record, spec_id_set(frontier_ids@), spec_id_set(frontier_episode_ids@))
        } else {
            Seq::<GraphExpansionRelation>::empty()
        },
{
    let mut out: Vec<GraphExpansionRelation> = Vec::new();
    if profile != RecallPlanningProfile::ContinuityAware {
        return out;
    }
    match &record.episode {
        Some(e) => {
            let member = crate::text::list_contains(frontier_episode_ids, e.episode_id.as_str());
            proof {
                lemma_id_set_has(frontier_episode_ids@, e.episode_id@);
            }
            push_relation(&mut out, member, GraphExpansionRelation::EpisodeMembership);
            let chrono = option_listed(&e.previous_record_id, frontier_ids) || option_listed(
                &e.next_record_id,
                frontier_ids,
            );
            push_relation(&mut out, chrono, GraphExpansionRelation::Chronology);
            let causal = any_listed(&e.causal_record_ids, frontier_ids);
            push_relation(&mut out, causal, GraphExpansionRelation::Causal);
            let related = any_listed(&e.related_record_ids, frontier_ids);
            push_relation(&mut out, related, GraphExpansionRelation::Related);
        },
        None => {},
    }
    let lineage = lineage_listed(record, frontier_ids);
    push_relation(&mut out, lineage, GraphExpansionRelation::Lineage);
    proof {
        assert(out@ =~= spec_graph_relations(
            *record,
            spec_id_set(frontier_ids@),
            spec_id_set(frontier_episode_ids@),
        ));
    }
    out
}

/// The weight of a link in hundredths of a score point.
pub open spec fn spec_relation_strength(rel: GraphExpansionRelation) -> int {
    match rel {
        GraphExpansionRelation::EpisodeMembership => 45,
        GraphExpansionRelation::Chronology => 35,
        GraphExpansionRelation::Causal => 32,
        GraphExpansionRelation::Related => 24,
        GraphExpansionRelation::Lineage => 28,
    }
}

/// The weight of the strongest link (zero without links).
pub open spec fn spec_strongest(rels: Seq<GraphExpansionRelation>) -> int
    decreases rels.len(),
{
    if rels.len() == 0 {
        0
    } else {
        let rest = spec_strongest(rels.drop_last());
        let last = spec_relation_strength(rels.last());
        if last > rest {
            last
        } else {
            rest
        }
    }
}

/// The graph bonus of a record reached at `hop` through these links, in
/// hundredths of a score point: the strongest link, four more for each
/// further link, eight less for each hop after the first, and never below
/// zero.
pub open spec fn spec_relation_bonus(rels: Seq<GraphExpansionRelation>, hop: u8) -> int {
    let stacked = if rels.len() == 0 {
        0
    } else {
        4 * (rels.len() - 1)
    };
    let penalty = if hop == 0 {
        0
    } else {
        8 * (hop - 1)
    };
    let raw = spec_strongest(rels) + stacked - penalty;
    if raw > 0 {
        raw
    } else {
        0
    }
}

fn relation_strength(rel: GraphExpansionRelation) -> (r: u128)
    ensures
        r == spec_relation_strength(rel),
{
    match rel {
        GraphExpansionRelation::EpisodeMembership => 45,
        GraphExpansionRelation::Chronology => 35,
        GraphExpansionRelation::Causal => 32,
        GraphExpansionRelation::Related => 24,
        GraphExpansionRelation::Lineage => 28,
    }
}

proof fn lemma_strongest_bounds(rels: Seq<GraphExpansionRelation>)
    ensures
        0 <= spec_strongest(rels) <= 45,
    decreases rels.len(),
{
    if rels.len() > 0 {
        lemma_strongest_bounds(rels.drop_last());
    }
}

/// The graph bonus of a record reached at `hop` through `relations`, in
/// hundredths of a score point.
pub fn graph_relation_bonus(relations: &Vec<GraphExpansionRelation>, hop: u8) -> (r: u128)
    ensures
        r == spec_relation_bonus(relations@, hop),
{
    let n = relations.len();
    let mut strongest: u128 = 0;
    let mut i: usize = 0;
    while i < n
        invariant
            n == relations@.len(),
            i <= n,
            strongest == spec_strongest(relations@.subrange(0, i as int)),
        decreases n - i,
    {
        proof {
            let s = relations@.subrange(0, i + 1);
            assert(s.drop_last() =~= relations@.subrange(0, i as int));
            assert(s.last() == relations@[i as int]);
        }
        let w = relation_strength(relations[i]);
        if w > strongest {
            strongest = w;
        }
        i += 1;
    }
    proof {
        assert(relations@.subrange(0, n as int) =~= relations@);
        lemma_strongest_bounds(relations@);
    }
    let stacked: u128 = if n == 0 {
        0
    } else {
        4 * ((n - 1) as u128)
    };
    let penalty: u128 = if hop == 0 {
        0
    } else {
        8 * ((hop - 1) as u128)
    };
    if strongest + stacked > penalty {
        strongest + stacked - penalty
    } else {
        0
    }
}


// ----- the planner -----

/// Plans a recall: scores candidates, and in continuity-aware planning
/// expands them along episode and lineage links up to a number of hops.
#[derive(Debug, Clone, Copy, PartialEq, Eq)]
pub struct RecallPlanner {
    pub profile: RecallPlanningProfile,
    pub graph_expansion_max_hops: u8,
    pub scorer: ConfiguredRecallScorer,
}

/// Timings and counts of one planning run.
#[derive(Debug, Clone, Copy, PartialEq, Eq, Default)]
pub struct RecallPlannerMetrics {
    pub candidate_generation_ns: u128,
    pub graph_expansion_ns: u128,
    pub total_ns: u128,
    pub seeded_candidates: usize,
    pub expanded_candidates: usize,
    pub hops_applied: u8,
}

/// The planning a recall gets: continuity-aware when the planner is, or
/// when the query names an episode, asks for unresolved records only, or
/// follows a thread of events; the fast path otherwise.
pub open spec fn spec_effective_profile(
    planner_profile: RecallPlanningProfile,
    query_text: Seq<char>,
    filters: RecallFilterFrame,
) -> RecallPlanningProfile {
    if planner_profile == RecallPlanningProfile::ContinuityAware || filters.episode_id is Some
        || filters.unresolved_only || spec_mentions_any(query_text, spec_continuity_phrases()) {
        RecallPlanningProfile::ContinuityAware
    } else {
        RecallPlanningProfile::FastPath
    }
}

/// A record reached by graph expansion: its place in the input, the hop at
/// which it was reached and the links it was reached through.
#[derive(Debug, Clone, PartialEq, Eq)]
pub struct ExpansionStep {
    pub record_index: usize,
    pub hop: u8,
    pub relations: Vec<GraphExpansionRelation>,
}

/// What graph expansion adds to the seed candidates of a recall.
#[derive(Debug, Clone, PartialEq, Eq)]
pub struct GraphExpansion {
    /// The distinct record ids among the seed candidates.
    pub seeded_candidates: usize,
    /// The records reached, in the order in which they were reached.
    pub steps: Vec<ExpansionStep>,
    /// The last hop that reached a record.
    pub hops_applied: u8,
}

impl RecallPlannerMetrics {
    /// The metrics of a planning run whose graph expansion is `expansion`:
    /// its seed count, the records it reached and its last productive hop,
    /// with the stage timings measured around the run.
    pub fn from_expansion(
        expansion: &GraphExpansion,
        candidate_generation_ns: u128,
        graph_expansion_ns: u128,
        total_ns: u128,
    ) -> (r: RecallPlannerMetrics)
        ensures
            r == (RecallPlannerMetrics {
                candidate_generation_ns,
                graph_expansion_ns,
                total_ns,
                seeded_candidates: expansion.seeded_candidates,
                expanded_candidates: expansion.steps@.len() as usize,
                hops_applied: expansion.hops_applied,
            }),
    {
        RecallPlannerMetrics {
            candidate_generation_ns,
            graph_expansion_ns,
            total_ns,
            seeded_candidates: expansion.seeded_candidates,
            expanded_candidates: expansion.steps.len(),
            hops_applied: expansion.hops_applied,
        }
    }
}

pub open spec fn spec_step_view(s: ExpansionStep) -> (int, u8, Seq<GraphExpansionRelation>) {
    (s.record_index as int, s.hop, s.relations@)
}

/// The state of graph expansion while one hop scans the records.
pub struct ExpansionState {
    pub candidates: Set<Seq<char>>,
    pub next_ids: Set<Seq<char>>,
    pub next_episodes: Set<Seq<char>>,
    pub steps: Seq<(int, u8, Seq<GraphExpansionRelation>)>,
}

/// The state after one hop has scanned the first `k` records: a record in
/// the query scope, not yet a candidate, with links to the frontier whose
/// bonus at this hop is positive, becomes a candidate and joins the next
/// frontier (with its episode).
pub open spec fn spec_hop_scan(
    records: Seq<RecordFrame>,
    scope: crate::model::MemoryScope,
    hop: u8,
    frontier: Set<Seq<char>>,
    frontier_episodes: Set<Seq<char>>,
    start: ExpansionState,
    k: nat,
) -> ExpansionState
    decreases k,
{
    if k == 0 {
        start
    } else {
        let st = spec_hop_scan(records, scope, hop, frontier, frontier_episodes, start, (k - 1) as nat);
        let r = records[k - 1];
        let rels = spec_graph_relations(r, frontier, frontier_episodes);
        if !crate::store::spec_matches_scope(r.scope, scope) || st.candidates.contains(r.id@)
            || rels.len() == 0 || spec_relation_bonus(rels, hop) <= 0 {
            st
        } else {
            ExpansionState {
                candidates: st.candidates.insert(r.id@),
                next_ids: st.next_ids.insert(r.id@),
                next_episodes: match r.episode {
                    Some(e) => st.next_episodes.insert(e.episode_id@),
                    None => st.next_episodes,
                },
                steps: st.steps.push(((k - 1) as int, hop, rels)),
            }
        }
    }
}

/// The steps and the last productive hop of expansion from hop `hop` on,
/// with these candidates and this frontier: it stops after `max_hops`, when
/// the frontier is empty, or when a hop reaches nothing.
pub open spec fn spec_expand(
    records: Seq<RecordFrame>,
    scope: crate::model::MemoryScope,
    max_hops: u8,
    hop: int,
    candidates: Set<Seq<char>>,
    frontier: Set<Seq<char>>,
    frontier_episodes: Set<Seq<char>>,
    steps: Seq<(int, u8, Seq<GraphExpansionRelation>)>,
    hops_applied: u8,
) -> (Seq<(int, u8, Seq<GraphExpansionRelation>)>, u8)
    decreases max_hops - hop + 1,
{
    if hop < 1 || hop > max_hops || frontier == Set::<Seq<char>>::empty() {
        (steps, hops_applied)
    } else {
        let start = ExpansionState {
            candidates,
            next_ids: Set::empty(),
            next_episodes: Set::empty(),
            steps,
        };
        let st = spec_hop_scan(records, scope, hop as u8, frontier, frontier_episodes, start, records.len());
        if st.next_ids == Set::<Seq<char>>::empty() {
            (st.steps, hops_applied)
        } else {
            spec_expand(
                records,
                scope,
                max_hops,
                hop + 1,
                st.candidates,
                st.next_ids,
                st.next_episodes,
                st.steps,
                hop as u8,
            )
        }
    }
}

/// The seed candidates among the first `k` records: each record in the
/// query scope that the scorer kept, by id, with the episode of the last
/// such record of that id.
pub open spec fn spec_seed_map(
    records: Seq<RecordFrame>,
    scope: crate::model::MemoryScope,
    seeded: Seq<bool>,
    k: nat,
) -> Map<Seq<char>, Option<Seq<char>>>
    decreases k,
{
    if k == 0 {
        Map::empty()
    } else {
        let m = spec_seed_map(records, scope, seeded, (k - 1) as nat);
        let r = records[k - 1];
        if seeded[k - 1] && crate::store::spec_matches_scope(r.scope, scope) {
            m.insert(
                r.id@,
                match r.episode {
                    Some(e) => Some(e.episode_id@),
                    None => None,
                },
            )
        } else {
            m
        }
    }
}

pub open spec fn spec_seed_episodes(m: Map<Seq<char>, Option<Seq<char>>>) -> Set<Seq<char>> {
    Set::new(|e: Seq<char>| exists|id: Seq<char>| m.dom().contains(id) && m[id] == Some(e))
}

/// The steps and the last productive hop of the graph expansion of a
/// recall: none on the fast path or with no hops allowed; otherwise
/// expansion from the seed candidates, starting at hop one.
pub open spec fn spec_graph_expansion(
    records: Seq<RecordFrame>,
    scope: crate::model::MemoryScope,
    seeded: Seq<bool>,
    profile: RecallPlanningProfile,
    max_hops: u8,
) -> (Seq<(int, u8, Seq<GraphExpansionRelation>)>, u8) {
    if profile != RecallPlanningProfile::ContinuityAware || max_hops == 0 {
        (Seq::empty(), 0)
    } else {
        let m = spec_seed_map(records, scope, seeded, records.len());
        spec_expand(records, scope, max_hops, 1, m.dom(), m.dom(), spec_seed_episodes(m), Seq::empty(), 0)
    }
}

impl RecallPlanner {
    /// The planner of an engine configuration.
    pub fn from_engine_config(config: &EngineConfig) -> (r: Self)
        ensures
            r.profile == config.recall_planning_profile,
            r.graph_expansion_max_hops == config.graph_expansion_max_hops,
            r.scorer.spec_configured_by(*config),
    {
        RecallPlanner {
            profile: config.recall_planning_profile,
            graph_expansion_max_hops: config.graph_expansion_max_hops,
            scorer: ConfiguredRecallScorer::from_engine_config(config),
        }
    }

    pub fn with_scorer(
        profile: RecallPlanningProfile,
        graph_expansion_max_hops: u8,
        scorer: ConfiguredRecallScorer,
    ) -> (r: Self)
        ensures
            r == (RecallPlanner { profile, graph_expansion_max_hops, scorer }),
    {
        RecallPlanner { profile, graph_expansion_max_hops, scorer }
    }

    pub fn scorer(&self) -> (r: ConfiguredRecallScorer)
        ensures
            r == self.scorer,
    {
        self.scorer
    }

    /// The planning profile a query gets from this planner.
    pub fn effective_profile(&self, query_text: &str, filters: &RecallFilterFrame) -> (r: RecallPlanningProfile)
        ensures
            r == spec_effective_profile(self.profile, query_text@, *filters),
    {
        if self.profile == RecallPlanningProfile::ContinuityAware || filters.episode_id.is_some()
            || filters.unresolved_only || has_continuity_intent(query_text) {
            RecallPlanningProfile::ContinuityAware
        } else {
            RecallPlanningProfile::FastPath
        }
    }
}


fn position_of(ids: &Vec<String>, s: &str) -> (r: Option<usize>)
    ensures
        match r {
            Some(j) => j < ids@.len() && ids@[j as int]@ == s@,
            None => !spec_seq_has(ids@, s@),
        },
{
    let n = ids.len();
    let mut i: usize = 0;
    while i < n
        invariant
            n == ids@.len(),
            i <= n,
            forall|j: int| 0 <= j < i ==> (#[trigger] ids@[j])@ != s@,
        decreases n - i,
    {
        if crate::text::text_eq(ids[i].as_str(), s) {
            return Some(i);
        }
        i += 1;
    }
    None
}

pub open spec fn spec_texts(ids: Seq<String>) -> Seq<Seq<char>> {
    ids.map_values(|t: String| t@)
}

proof fn lemma_id_set_is_to_set(ids: Seq<String>)
    ensures
        spec_id_set(ids) == spec_texts(ids).to_set(),
{
    let a = spec_id_set(ids);
    let b = spec_texts(ids).to_set();
    assert forall|x: Seq<char>| a.contains(x) == b.contains(x) by {
        if a.contains(x) {
            let i = choose|i: int| 0 <= i < ids.len() && #[trigger] ids[i]@ == x;
            assert(spec_texts(ids)[i] == x);
        }
        if b.contains(x) {
            let i = choose|i: int| 0 <= i < spec_texts(ids).len() && spec_texts(ids)[i] == x;
            assert(ids[i]@ == x);
        }
    }
    assert(a =~= b);
}

/// The seed candidates of a recall: their distinct ids, each with the
/// episode of the last seeded record of that id.
fn collect_seeds(
    records: &Vec<RecordFrame>,
    scope: &crate::model::MemoryScope,
    seeded: &Vec<bool>,
) -> (r: (Vec<String>, Vec<Option<String>>))
    requires
        seeded@.len() == records@.len(),
    ensures
        r.0@.len() == r.1@.len(),
        spec_texts(r.0@).no_duplicates(),
        spec_id_set(r.0@) == spec_seed_map(records@, *scope, seeded@, records@.len()).dom(),
        forall|j: int|
            0 <= j < r.0@.len() ==> spec_seed_map(records@, *scope, seeded@, records@.len())[(
            #[trigger] r.0@[j])@] == crate::keys::spec_option_view(r.1@[j]),
{
    let n = records.len();
    let mut ids: Vec<String> = Vec::new();
    let mut eps: Vec<Option<String>> = Vec::new();
    let mut i: usize = 0;
    while i < n
        invariant
            n == records@.len(),
            seeded@.len() == n,
            i <= n,
            ids@.len() == eps@.len(),
            spec_texts(ids@).no_duplicates(),
            spec_id_set(ids@) == spec_seed_map(records@, *scope, seeded@, i as nat).dom(),
            forall|j: int|
                0 <= j < ids@.len() ==> spec_seed_map(records@, *scope, seeded@, i as nat)[(
                #[trigger] ids@[j])@] == crate::keys::spec_option_view(eps@[j]),
        decreases n - i,
    {
        let ghost m0 = spec_seed_map(records@, *scope, seeded@, i as nat);
        let r = &records[i];
        if seeded[i] && crate::store::matches_scope(&r.scope, scope) {
            let ep: Option<String> = match &r.episode {
                Some(e) => Some(e.episode_id.clone()),
                None => None,
            };
            let ghost epv = crate::keys::spec_option_view(ep);
            let ghost m1 = m0.insert(r.id@, epv);
            assert(m1 == spec_seed_map(records@, *scope, seeded@, (i + 1) as nat));
            match position_of(&ids, r.id.as_str()) {
                Some(j) => {
                    let ghost ids0 = ids@;
                    let ghost eps0 = eps@;
                    eps.set(j, ep);
                    proof {
                        assert forall|k: int| 0 <= k < ids@.len() implies m1[(#[trigger] ids@[k])@]
                            == crate::keys::spec_option_view(eps@[k]) by {
                            if k != j {
                                assert(ids0[k]@ != ids0[j as int]@) by {
                                    assert(spec_texts(ids0)[k] != spec_texts(ids0)[j as int]);
                                }
                            }
                        }
                        assert(m0.dom().contains(r.id@)) by {
                            lemma_id_set_has(ids@, r.id@);
                        }
                        assert(m1.dom() =~= m0.dom());
                    }
                },
                None => {
                    let ghost ids0 = ids@;
                    let ghost eps0 = eps@;
                    ids.push(r.id.clone());
                    eps.push(ep);
                    proof {
                        lemma_id_set_push(ids0, r.id);
                        assert(spec_texts(ids@) =~= spec_texts(ids0).push(r.id@));
                        assert forall|a: int, b: int| 0 <= a < b < spec_texts(ids@).len() implies spec_texts(ids@)[a]
                            != spec_texts(ids@)[b] by {
                            if b == ids0.len() {
                                assert(ids0[a]@ == spec_texts(ids0)[a]);
                                if ids0[a]@ == r.id@ {
                                    assert(spec_seq_has(ids0, r.id@));
                                }
                            } else {
                                assert(spec_texts(ids0)[a] != spec_texts(ids0)[b]);
                            }
                        }
                        assert forall|k: int| 0 <= k < ids@.len() implies m1[(#[trigger] ids@[k])@]
                            == crate::keys::spec_option_view(eps@[k]) by {
                            if k < ids0.len() {
                                assert(ids@[k] == ids0[k]);
                                assert(eps@[k] == eps0[k]);
                                if ids0[k]@ == r.id@ {
                                    assert(spec_seq_has(ids0, r.id@));
                                }
                            }
                        }
                        assert(m1.dom() =~= m0.dom().insert(r.id@));
                    }
                },
            }
        } else {
            assert(m0 == spec_seed_map(records@, *scope, seeded@, (i + 1) as nat));
        }
        i += 1;
    }
    (ids, eps)
}

/// The episode ids among optional ones.
fn present_episodes(eps: &Vec<Option<String>>) -> (r: Vec<String>)
    ensures
        forall|x: Seq<char>|
            spec_id_set(r@).contains(x) == exists|j: int|
                0 <= j < eps@.len() && crate::keys::spec_option_view(#[trigger] eps@[j]) == Some(x),
{
    let n = eps.len();
    let mut out: Vec<String> = Vec::new();
    let mut i: usize = 0;
    while i < n
        invariant
            n == eps@.len(),
            i <= n,
            forall|x: Seq<char>|
                spec_id_set(out@).contains(x) == exists|j: int|
                    0 <= j < i && crate::keys::spec_option_view(#[trigger] eps@[j]) == Some(x),
        decreases n - i,
    {
        let ghost out0 = out@;
        match &eps[i] {
            Some(e) => {
                out.push(e.clone());
                proof {
                    lemma_id_set_push(out0, *e);
                    assert forall|x: Seq<char>| spec_id_set(out@).contains(x) == exists|j: int|
                        0 <= j < i + 1 && crate::keys::spec_option_view(#[trigger] eps@[j]) == Some(x) by {
                        if x == e@ {
                            assert(crate::keys::spec_option_view(eps@[i as int]) == Some(x));
                        }
                        if exists|j: int| 0 <= j < i + 1 && crate::keys::spec_option_view(#[trigger] eps@[j]) == Some(x) {
                            let j = choose|j: int| 0 <= j < i + 1 && crate::keys::spec_option_view(#[trigger] eps@[j]) == Some(x);
                            if j < i {
                                assert(exists|j: int| 0 <= j < i && crate::keys::spec_option_view(#[trigger] eps@[j]) == Some(x));
                            }
                        }
                    }
                }
            },
            None => {
                proof {
                    assert forall|x: Seq<char>| spec_id_set(out@).contains(x) == exists|j: int|
                        0 <= j < i + 1 && crate::keys::spec_option_view(#[trigger] eps@[j]) == Some(x) by {
                        if exists|j: int| 0 <= j < i + 1 && crate::keys::spec_option_view(#[trigger] eps@[j]) == Some(x) {
                            let j = choose|j: int| 0 <= j < i + 1 && crate::keys::spec_option_view(#[trigger] eps@[j]) == Some(x);
                            if j < i {
                                assert(exists|j: int| 0 <= j < i && crate::keys::spec_option_view(#[trigger] eps@[j]) == Some(x));
                            }
                        }
                    }
                }
            },
        }
        i += 1;
    }
    out
}


pub open spec fn spec_steps_view(steps: Seq<ExpansionStep>) -> Seq<(int, u8, Seq<GraphExpansionRelation>)> {
    steps.map_values(|s: ExpansionStep| spec_step_view(s))
}

/// One hop of graph expansion over all records.
fn scan_hop(
    records: &Vec<RecordFrame>,
    scope: &crate::model::MemoryScope,
    hop: u8,
    frontier: &Vec<String>,
    frontier_episodes: &Vec<String>,
    candidates: &mut Vec<String>,
    steps: &mut Vec<ExpansionStep>,
) -> (r: (Vec<String>, Vec<String>))
    ensures
        ({
            let st = spec_hop_scan(
                records@,
                *scope,
                hop,
                spec_id_set(frontier@),
                spec_id_set(frontier_episodes@),
                ExpansionState {
                    candidates: spec_id_set(old(candidates)@),
                    next_ids: Set::empty(),
                    next_episodes: Set::empty(),
                    steps: spec_steps_view(old(steps)@),
                },
                records@.len(),
            );
            &&& spec_id_set(final(candidates)@) == st.candidates
            &&& spec_id_set(r.0@) == st.next_ids
            &&& spec_id_set(r.1@) == st.next_episodes
            &&& spec_steps_view(final(steps)@) == st.steps
        }),
{
    let ghost start = ExpansionState {
        candidates: spec_id_set(candidates@),
        next_ids: Set::empty(),
        next_episodes: Set::empty(),
        steps: spec_steps_view(steps@),
    };
    let ghost fset = spec_id_set(frontier@);
    let ghost eset = spec_id_set(frontier_episodes@);
    let n = records.len();
    let mut next_ids: Vec<String> = Vec::new();
    let mut next_eps: Vec<String> = Vec::new();
    let mut i: usize = 0;
    proof {
        assert(spec_id_set(next_ids@) =~= Set::<Seq<char>>::empty());
        assert(spec_id_set(next_eps@) =~= Set::<Seq<char>>::empty());
    }
    while i < n
        invariant
            n == records@.len(),
            i <= n,
            fset == spec_id_set(frontier@),
            eset == spec_id_set(frontier_episodes@),
            ({
                let st = spec_hop_scan(records@, *scope, hop, fset, eset, start, i as nat);
                &&& spec_id_set(candidates@) == st.candidates
                &&& spec_id_set(next_ids@) == st.next_ids
                &&& spec_id_set(next_eps@) == st.next_episodes
                &&& spec_steps_view(steps@) == st.steps
            }),
        decreases n - i,
    {
        let r = &records[i];
        let ghost cands0 = candidates@;
        let ghost ids0 = next_ids@;
        let ghost eps0 = next_eps@;
        let ghost steps0 = steps@;
        let in_scope = crate::store::matches_scope(&r.scope, scope);
        let known = crate::text::list_contains(candidates, r.id.as_str());
        proof {
            lemma_id_set_has(cands0, r.id@);
        }
        if in_scope && !known {
            let rels = graph_relations(r, frontier, frontier_episodes, RecallPlanningProfile::ContinuityAware);
            if rels.len() > 0 {
                let bonus = graph_relation_bonus(&rels, hop);
                if bonus > 0 {
                    let ghost relv = rels@;
                    candidates.push(r.id.clone());
                    next_ids.push(r.id.clone());
                    match &r.episode {
                        Some(e) => {
                            next_eps.push(e.episode_id.clone());
                            proof {
                                lemma_id_set_push(eps0, e.episode_id);
                            }
                        },
                        None => {},
                    }
                    steps.push(ExpansionStep { record_index: i, hop, relations: rels });
                    proof {
                        lemma_id_set_push(cands0, r.id);
                        lemma_id_set_push(ids0, r.id);
                        assert(spec_steps_view(steps@) =~= spec_steps_view(steps0).push(
                            (i as int, hop, relv),
                        ));
                    }
                }
            }
        }
        i += 1;
    }
    (next_ids, next_eps)
}

impl RecallPlanner {
    /// The graph expansion of a recall over `records` in the query scope
    /// `scope`, where `seeded[i]` tells whether the scorer kept record `i`
    /// as a seed candidate: the number of distinct seed ids, and, when the
    /// query gets continuity-aware planning and hops are allowed, the
    /// records reached hop by hop from the seeds.
    pub fn plan_graph_expansion(
        &self,
        records: &Vec<RecordFrame>,
        scope: &crate::model::MemoryScope,
        query_text: &str,
        filters: &RecallFilterFrame,
        seeded: &Vec<bool>,
    ) -> (r: GraphExpansion)
        requires
            seeded@.len() == records@.len(),
        ensures
            r.seeded_candidates == spec_seed_map(records@, *scope, seeded@, records@.len()).dom().len(),
            (spec_steps_view(r.steps@), r.hops_applied) == spec_graph_expansion(
                records@,
                *scope,
                seeded@,
                spec_effective_profile(self.profile, query_text@, *filters),
                self.graph_expansion_max_hops,
            ),
    {
        let ghost m = spec_seed_map(records@, *scope, seeded@, records@.len());
        let (ids, eps) = collect_seeds(records, scope, seeded);
        let seeded_candidates = ids.len();
        proof {
            spec_texts(ids@).unique_seq_to_set();
            lemma_id_set_is_to_set(ids@);
        }
        let profile = self.effective_profile(query_text, filters);
        let max_hops = self.graph_expansion_max_hops;
        if profile != RecallPlanningProfile::ContinuityAware || max_hops == 0 {
            let steps: Vec<ExpansionStep> = Vec::new();
            proof {
                assert(spec_steps_view(steps@) =~= Seq::<(int, u8, Seq<GraphExpansionRelation>)>::empty());
            }
            return GraphExpansion { seeded_candidates, steps, hops_applied: 0 };
        }
        let frontier_episodes0 = present_episodes(&eps);
        proof {
            assert(spec_id_set(frontier_episodes0@) =~= spec_seed_episodes(m)) by {
                assert forall|x: Seq<char>| spec_id_set(frontier_episodes0@).contains(x)
                    == spec_seed_episodes(m).contains(x) by {
                    if spec_id_set(frontier_episodes0@).contains(x) {
                        let j = choose|j: int| 0 <= j < eps@.len() && crate::keys::spec_option_view(#[trigger] eps@[j]) == Some(x);
                        assert(m[ids@[j]@] == Some(x));
                        lemma_id_set_has(ids@, ids@[j]@);
                    }
                    if spec_seed_episodes(m).contains(x) {
                        let id = choose|id: Seq<char>| m.dom().contains(id) && m[id] == Some(x);
                        lemma_id_set_has(ids@, id);
                        let j = choose|j: int| 0 <= j < ids@.len() && #[trigger] ids@[j]@ == id;
                        assert(crate::keys::spec_option_view(eps@[j]) == Some(x));
                    }
                }
            }
        }
        let ghost goal = spec_graph_expansion(records@, *scope, seeded@, profile, max_hops);
        let mut candidates = crate::text::copy_texts(&ids);
        let mut frontier = ids;
        let mut frontier_episodes = frontier_episodes0;
        let mut steps: Vec<ExpansionStep> = Vec::new();
        let mut hops_applied: u8 = 0;
        let mut hop: u16 = 1;
        proof {
            assert(spec_steps_view(steps@) =~= Seq::<(int, u8, Seq<GraphExpansionRelation>)>::empty());
        }
        loop
            invariant_except_break
                1 <= hop <= max_hops as u16 + 1,
                max_hops >= 1,
                spec_expand(
                    records@,
                    *scope,
                    max_hops,
                    hop as int,
                    spec_id_set(candidates@),
                    spec_id_set(frontier@),
                    spec_id_set(frontier_episodes@),
                    spec_steps_view(steps@),
                    hops_applied,
                ) == goal,
            ensures
                (spec_steps_view(steps@), hops_applied) == goal,
            decreases max_hops as u16 + 1 - hop,
        {
            if hop > max_hops as u16 {
                break;
            }
            proof {
                lemma_id_set_empty(frontier@);
            }
            if frontier.len() == 0 {
                break;
            }
            let hop8 = hop as u8;
            let (next_ids, next_episodes) = scan_hop(
                records,
                scope,
                hop8,
                &frontier,
                &frontier_episodes,
                &mut candidates,
                &mut steps,
            );
            proof {
                lemma_id_set_empty(next_ids@);
            }
            if next_ids.len() == 0 {
                break;
            }
            hops_applied = hop8;
            frontier = next_ids;
            frontier_episodes = next_episodes;
            hop = hop + 1;
        }
        GraphExpansion { seeded_candidates, steps, hops_applied }
    }
}


// ----- laws of graph expansion -----

/// The ids of the records that these steps reached.
pub open spec fn spec_step_ids(
    records: Seq<RecordFrame>,
    steps: Seq<(int, u8, Seq<GraphExpansionRelation>)>,
) -> Set<Seq<char>> {
    Set::new(|x: Seq<char>| exists|k: int| 0 <= k < steps.len() && records[(#[trigger] steps[k]).0].id@ == x)
}

/// Every step reaches a record of the input that lies in the query scope,
/// is no seed, and was reached at a hop between one and `max_hops`; no two
/// steps reach the same record id.
pub open spec fn spec_steps_sound(
    records: Seq<RecordFrame>,
    scope: crate::model::MemoryScope,
    max_hops: u8,
    seeds: Set<Seq<char>>,
    steps: Seq<(int, u8, Seq<GraphExpansionRelation>)>,
) -> bool {
    &&& forall|k: int|
        0 <= k < steps.len() ==> {
            let s = #[trigger] steps[k];
            &&& 0 <= s.0 < records.len()
            &&& 1 <= s.1 <= max_hops
            &&& crate::store::spec_matches_scope(records[s.0].scope, scope)
            &&& !seeds.contains(records[s.0].id@)
        }
    &&& forall|a: int, b: int|
        0 <= a < b < steps.len() ==> records[(#[trigger] steps[a]).0].id@ != records[(
        #[trigger] steps[b]).0].id@
}

proof fn lemma_hop_scan_sound(
    records: Seq<RecordFrame>,
    scope: crate::model::MemoryScope,
    max_hops: u8,
    hop: u8,
    frontier: Set<Seq<char>>,
    frontier_episodes: Set<Seq<char>>,
    seeds: Set<Seq<char>>,
    start: ExpansionState,
    k: nat,
)
    requires
        k <= records.len(),
        1 <= hop <= max_hops,
        spec_steps_sound(records, scope, max_hops, seeds, start.steps),
        start.candidates == seeds.union(spec_step_ids(records, start.steps)),
    ensures
        ({
            let st = spec_hop_scan(records, scope, hop, frontier, frontier_episodes, start, k);
            &&& spec_steps_sound(records, scope, max_hops, seeds, st.steps)
            &&& st.candidates == seeds.union(spec_step_ids(records, st.steps))
            &&& st.steps.len() >= start.steps.len()
        }),
    decreases k,
{
    if k > 0 {
        lemma_hop_scan_sound(records, scope, max_hops, hop, frontier, frontier_episodes, seeds, start, (k - 1) as nat);
        let st = spec_hop_scan(records, scope, hop, frontier, frontier_episodes, start, (k - 1) as nat);
        let r = records[k - 1];
        let rels = spec_graph_relations(r, frontier, frontier_episodes);
        if !(!crate::store::spec_matches_scope(r.scope, scope) || st.candidates.contains(r.id@)
            || rels.len() == 0 || spec_relation_bonus(rels, hop) <= 0) {
            let steps2 = st.steps.push(((k - 1) as int, hop, rels));
            assert(!seeds.contains(r.id@));
            assert forall|a: int, b: int| 0 <= a < b < steps2.len() implies records[(#[trigger] steps2[a]).0].id@
                != records[(#[trigger] steps2[b]).0].id@ by {
                if b == st.steps.len() {
                    assert(steps2[a] == st.steps[a]);
                    if records[st.steps[a].0].id@ == r.id@ {
                        assert(spec_step_ids(records, st.steps).contains(r.id@));
                    }
                } else {
                    assert(steps2[a] == st.steps[a]);
                    assert(steps2[b] == st.steps[b]);
                }
            }
            assert forall|j: int| 0 <= j < steps2.len() implies {
                let s = #[trigger] steps2[j];
                &&& 0 <= s.0 < records.len()
                &&& 1 <= s.1 <= max_hops
                &&& crate::store::spec_matches_scope(records[s.0].scope, scope)
                &&& !seeds.contains(records[s.0].id@)
            } by {
                if j < st.steps.len() {
                    assert(steps2[j] == st.steps[j]);
                }
            }
            let ids2 = spec_step_ids(records, steps2);
            assert forall|x: Seq<char>| ids2.contains(x) == (spec_step_ids(records, st.steps).contains(x) || x == r.id@) by {
                if ids2.contains(x) {
                    let j = choose|j: int| 0 <= j < steps2.len() && records[(#[trigger] steps2[j]).0].id@ == x;
                    if j < st.steps.len() {
                        assert(steps2[j] == st.steps[j]);
                        assert(spec_step_ids(records, st.steps).contains(x));
                    }
                }
                if spec_step_ids(records, st.steps).contains(x) {
                    let j = choose|j: int| 0 <= j < st.steps.len() && records[(#[trigger] st.steps[j]).0].id@ == x;
                    assert(steps2[j] == st.steps[j]);
                    assert(ids2.contains(x));
                }
                if x == r.id@ {
                    assert(steps2[st.steps.len() as int].0 == k - 1);
                    assert(ids2.contains(x));
                }
            }
            assert(st.candidates.insert(r.id@) =~= seeds.union(ids2));
        }
    }
}

proof fn lemma_expand_sound(
    records: Seq<RecordFrame>,
    scope: crate::model::MemoryScope,
    max_hops: u8,
    hop: int,
    seeds: Set<Seq<char>>,
    candidates: Set<Seq<char>>,
    frontier: Set<Seq<char>>,
    frontier_episodes: Set<Seq<char>>,
    steps: Seq<(int, u8, Seq<GraphExpansionRelation>)>,
    hops_applied: u8,
)
    requires
        hop >= 1,
        hops_applied <= max_hops,
        spec_steps_sound(records, scope, max_hops, seeds, steps),
        candidates == seeds.union(spec_step_ids(records, steps)),
    ensures
        ({
            let (out, h) = spec_expand(
                records,
                scope,
                max_hops,
                hop,
                candidates,
                frontier,
                frontier_episodes,
                steps,
                hops_applied,
            );
            &&& spec_steps_sound(records, scope, max_hops, seeds, out)
            &&& h <= max_hops
        }),
    decreases max_hops - hop + 1,
{
    if !(hop < 1 || hop > max_hops || frontier == Set::<Seq<char>>::empty()) {
        let start = ExpansionState { candidates, next_ids: Set::empty(), next_episodes: Set::empty(), steps };
        lemma_hop_scan_sound(
            records,
            scope,
            max_hops,
            hop as u8,
            frontier,
            frontier_episodes,
            seeds,
            start,
            records.len(),
        );
        let st = spec_hop_scan(records, scope, hop as u8, frontier, frontier_episodes, start, records.len());
        if st.next_ids != Set::<Seq<char>>::empty() {
            lemma_expand_sound(
                records,
                scope,
                max_hops,
                hop + 1,
                seeds,
                st.candidates,
                st.next_ids,
                st.next_episodes,
                st.steps,
                hop as u8,
            );
        }
    }
}

/// Graph expansion stays within its limits: every record it reaches lies
/// in the query scope, was reached at a hop between one and the planner's
/// hop limit, and is none of the seed candidates; no record id is reached
/// twice; and the last productive hop is within the limit.
pub proof fn lemma_graph_expansion_within_limits(
    records: Seq<RecordFrame>,
    scope: crate::model::MemoryScope,
    seeded: Seq<bool>,
    profile: RecallPlanningProfile,
    max_hops: u8,
)
    ensures
        ({
            let (steps, hops) = spec_graph_expansion(records, scope, seeded, profile, max_hops);
            let seeds = spec_seed_map(records, scope, seeded, records.len()).dom();
            &&& spec_steps_sound(records, scope, max_hops, seeds, steps)
            &&& hops <= max_hops
        }),
{
    let seeds = spec_seed_map(records, scope, seeded, records.len()).dom();
    let empty = Seq::<(int, u8, Seq<GraphExpansionRelation>)>::empty();
    assert(spec_step_ids(records, empty) =~= Set::<Seq<char>>::empty());
    assert(seeds.union(spec_step_ids(records, empty)) =~= seeds);
    if !(profile != RecallPlanningProfile::ContinuityAware || max_hops == 0) {
        let m = spec_seed_map(records, scope, seeded, records.len());
        lemma_expand_sound(records, scope, max_hops, 1, seeds, m.dom(), m.dom(), spec_seed_episodes(m), empty, 0);
    }
}

/// The fast path expands nothing: a query that gets fast-path planning
/// (its planner is on the fast path and it names no episode, does not ask
/// for unresolved records only and follows no thread of events) reaches no
/// record beyond its seeds.
pub proof fn lemma_fast_path_skips_expansion(
    planner: RecallPlanner,
    records: Seq<RecordFrame>,
    scope: crate::model::MemoryScope,
    seeded: Seq<bool>,
    query_text: Seq<char>,
    filters: RecallFilterFrame,
)
    requires
        planner.profile == RecallPlanningProfile::FastPath,
        filters.episode_id is None,
        !filters.unresolved_only,
        !spec_mentions_any(query_text, spec_continuity_phrases()),
    ensures
        spec_graph_expansion(
            records,
            scope,
            seeded,
            spec_effective_profile(planner.profile, query_text, filters),
            planner.graph_expansion_max_hops,
        ).0.len() == 0,
{
}

} // verus!
