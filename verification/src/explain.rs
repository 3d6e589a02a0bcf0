//! Recall explanations: the channels a hit or a whole recall was selected
//! through, the policy notes that say how the recall was planned and
//! scored, and why each traced candidate was kept or dropped.

use vstd::prelude::*;
use crate::config::RecallPlanningProfile;
use crate::scorer::{spec_policy_profile_note, spec_scoring_profile_note, ConfiguredRecallScorer};
use crate::text::{join_texts, list_contains, spec_join};

verus! {

/// The note naming a planning profile in recall explanations.
pub open spec fn spec_planning_profile_note(profile: RecallPlanningProfile) -> Seq<char> {
    match profile {
        RecallPlanningProfile::FastPath => "planning_profile=fast_path"@,
        RecallPlanningProfile::ContinuityAware => "planning_profile=continuity_aware"@,
    }
}

pub fn planning_profile_note(profile: RecallPlanningProfile) -> (r: &'static str)
    ensures
        r@ == spec_planning_profile_note(profile),
{
    match profile {
        RecallPlanningProfile::FastPath => "planning_profile=fast_path",
        RecallPlanningProfile::ContinuityAware => "planning_profile=continuity_aware",
    }
}

/// Which score components of a hit (or of any hit of a recall) are positive.
#[derive(Debug, Clone, Copy, PartialEq, Eq)]
pub struct ChannelSignals {
    pub semantic: bool,
    pub metadata: bool,
    pub episodic: bool,
    pub salience: bool,
    pub curation: bool,
}

pub open spec fn spec_when(cond: bool, item: Seq<char>) -> Seq<Seq<char>> {
    if cond {
        seq![item]
    } else {
        seq![]
    }
}

/// The channels of one hit, in alphabetical order: the policy channel, the
/// temporal channel for an empty query or the lexical one otherwise, and
/// each channel whose score is positive.
pub open spec fn spec_hit_channels(s: ChannelSignals, empty_query: bool) -> Seq<Seq<char>> {
    spec_when(s.curation, "curation"@) + spec_when(s.episodic, "episodic"@) + spec_when(
        !empty_query,
        "lexical"@,
    ) + spec_when(s.metadata, "metadata"@) + seq!["policy"@] + spec_when(s.salience, "salience"@)
        + spec_when(s.semantic, "semantic"@) + spec_when(empty_query, "temporal"@)
}

fn push_when(out: &mut Vec<String>, cond: bool, item: &str)
    ensures
        final(out)@.map_values(|t: String| t@) == old(out)@.map_values(|t: String| t@) + spec_when(
            cond,
            item@,
        ),
{
    let ghost before = out@.map_values(|t: String| t@);
    if cond {
        out.push(String::from_str(item));
    }
    proof {
        assert(final(out)@.map_values(|t: String| t@) =~= before + spec_when(cond, item@));
    }
}

pub fn selected_channels_for_hit(signals: &ChannelSignals, empty_query: bool) -> (r: Vec<String>)
    ensures
        r@.map_values(|t: String| t@) == spec_hit_channels(*signals, empty_query),
{
    let mut out: Vec<String> = Vec::new();
    proof {
        assert(out@.map_values(|t: String| t@) =~= Seq::<Seq<char>>::empty());
    }
    push_when(&mut out, signals.curation, "curation");
    push_when(&mut out, signals.episodic, "episodic");
    push_when(&mut out, !empty_query, "lexical");
    push_when(&mut out, signals.metadata, "metadata");
    push_when(&mut out, true, "policy");
    push_when(&mut out, signals.salience, "salience");
    push_when(&mut out, signals.semantic, "semantic");
    push_when(&mut out, empty_query, "temporal");
    proof {
        assert(out@.map_values(|t: String| t@) =~= spec_hit_channels(*signals, empty_query));
    }
    out
}

/// The channels of a whole recall: the temporal channel for an empty query
/// or the lexical one otherwise, the policy channel, and then each channel
/// that some hit has a positive score in, in a fixed order.
pub open spec fn spec_recall_channels(present: ChannelSignals, empty_query: bool) -> Seq<Seq<char>> {
    seq![if empty_query { "temporal"@ } else { "lexical"@ }, "policy"@] + spec_when(
        present.semantic,
        "semantic"@,
    ) + spec_when(present.metadata, "metadata"@) + spec_when(present.episodic, "episodic"@)
        + spec_when(present.salience, "salience"@) + spec_when(present.curation, "curation"@)
}

pub fn recall_selected_channels(present: &ChannelSignals, empty_query: bool) -> (r: Vec<String>)
    ensures
        r@.map_values(|t: String| t@) == spec_recall_channels(*present, empty_query),
{
    let mut out: Vec<String> = Vec::new();
    proof {
        assert(out@.map_values(|t: String| t@) =~= Seq::<Seq<char>>::empty());
    }
    push_when(&mut out, empty_query, "temporal");
    push_when(&mut out, !empty_query, "lexical");
    push_when(&mut out, true, "policy");
    push_when(&mut out, present.semantic, "semantic");
    push_when(&mut out, present.metadata, "metadata");
    push_when(&mut out, present.episodic, "episodic");
    push_when(&mut out, present.salience, "salience");
    push_when(&mut out, present.curation, "curation");
    proof {
        assert(out@.map_values(|t: String| t@) =~= spec_recall_channels(*present, empty_query));
    }
    out
}

/// The policy notes of a recall explanation: how the candidates were found
/// (a recent scan for an empty query, scoring otherwise), the scoring,
/// policy and planning profiles, the embedding provider when there is one,
/// and the episode and unresolved-only filters when they are applied.
pub open spec fn spec_policy_notes(
    empty_query: bool,
    scorer: ConfiguredRecallScorer,
    planning_profile: RecallPlanningProfile,
    episode_filter: bool,
    unresolved_only: bool,
) -> Seq<Seq<char>> {
    seq![
        if empty_query { "recent_scope_scan"@ } else { "initial_file_backend_scoring"@ },
        spec_scoring_profile_note(scorer.spec_scoring_profile()),
        spec_policy_profile_note(scorer.spec_policy_profile()),
        spec_planning_profile_note(planning_profile),
    ] + match scorer.spec_embedder().spec_provider_note() {
        Some(n) => seq![n],
        None => seq![],
    } + spec_when(episode_filter, "episode_filter_applied"@) + spec_when(
        unresolved_only,
        "unresolved_only_filter_applied"@,
    )
}

pub fn recall_policy_notes(
    empty_query: bool,
    scorer: &ConfiguredRecallScorer,
    planning_profile: RecallPlanningProfile,
    episode_filter: bool,
    unresolved_only: bool,
) -> (r: Vec<String>)
    ensures
        r@.map_values(|t: String| t@) == spec_policy_notes(
            empty_query,
            *scorer,
            planning_profile,
            episode_filter,
            unresolved_only,
        ),
{
    let mut out: Vec<String> = Vec::new();
    proof {
        assert(out@.map_values(|t: String| t@) =~= Seq::<Seq<char>>::empty());
    }
    push_when(&mut out, empty_query, "recent_scope_scan");
    push_when(&mut out, !empty_query, "initial_file_backend_scoring");
    push_when(&mut out, true, scorer.profile_note());
    push_when(&mut out, true, scorer.policy_profile_note());
    push_when(&mut out, true, planning_profile_note(planning_profile));
    let ghost before = out@.map_values(|t: String| t@);
    match scorer.embedding_note() {
        Some(n) => {
            out.push(n);
        },
        None => {},
    }
    proof {
        assert(out@.map_values(|t: String| t@) =~= before + match scorer.spec_embedder().spec_provider_note() {
            Some(n) => seq![n],
            None => seq![],
        });
    }
    push_when(&mut out, episode_filter, "episode_filter_applied");
    push_when(&mut out, unresolved_only, "unresolved_only_filter_applied");
    proof {
        assert(out@.map_values(|t: String| t@) =~= spec_policy_notes(
            empty_query,
            *scorer,
            planning_profile,
            episode_filter,
            unresolved_only,
        ));
    }
    out
}

/// The policy notes of one explained hit: the notes of the recall and then
/// the terms it matched, as `matched_terms=` and the terms joined by commas.
pub fn hit_policy_notes(
    empty_query: bool,
    scorer: &ConfiguredRecallScorer,
    planning_profile: RecallPlanningProfile,
    episode_filter: bool,
    unresolved_only: bool,
    matched_terms: &Vec<String>,
) -> (r: Vec<String>)
    ensures
        r@.map_values(|t: String| t@) == spec_policy_notes(
            empty_query,
            *scorer,
            planning_profile,
            episode_filter,
            unresolved_only,
        ).push("matched_terms="@ + spec_join(matched_terms@.map_values(|t: String| t@), ","@)),
{
    let mut out = recall_policy_notes(empty_query, scorer, planning_profile, episode_filter, unresolved_only);
    let ghost before = out@.map_values(|t: String| t@);
    let mut note = String::from_str("matched_terms=");
    let terms = join_texts(matched_terms, ",");
    note.append(terms.as_str());
    out.push(note);
    proof {
        assert(out@.map_values(|t: String| t@) =~= before.push(
            "matched_terms="@ + spec_join(matched_terms@.map_values(|t: String| t@), ","@),
        ));
    }
    out
}

/// Why a traced candidate was kept or dropped.
#[derive(Debug, Clone, PartialEq, Eq)]
pub struct TraceDecision {
    pub filter_reasons: Vec<String>,
    pub decision_reason: String,
}

/// The reasons of a traced candidate at `index` among the planned ones:
/// kept when selected; otherwise dropped because the item limit was used up
/// (its index is at or past the limit) and, with a token budget, because
/// the budget was used up.
pub open spec fn spec_filter_reasons(selected: bool, index: int, max_items: int, token_budget: bool) -> Seq<Seq<char>> {
    if selected {
        seq!["retained"@]
    } else {
        spec_when(index >= max_items, "max_items_exhausted"@) + spec_when(
            token_budget,
            "token_budget_exhausted"@,
        )
    }
}

pub open spec fn spec_decision_reason(selected: bool, token_budget: bool) -> Seq<char> {
    if selected {
        "selected_by_rank"@
    } else if token_budget {
        "excluded_by_rank_or_budget"@
    } else {
        "excluded_by_rank"@
    }
}

pub fn trace_decision(selected: bool, index: usize, max_items: usize, token_budget: bool) -> (r: TraceDecision)
    ensures
        r.filter_reasons@.map_values(|t: String| t@) == spec_filter_reasons(
            selected,
            index as int,
            max_items as int,
            token_budget,
        ),
        r.decision_reason@ == spec_decision_reason(selected, token_budget),
{
    let mut reasons: Vec<String> = Vec::new();
    proof {
        assert(reasons@.map_values(|t: String| t@) =~= Seq::<Seq<char>>::empty());
    }
    if selected {
        push_when(&mut reasons, true, "retained");
    } else {
        push_when(&mut reasons, index >= max_items, "max_items_exhausted");
        push_when(&mut reasons, token_budget, "token_budget_exhausted");
    }
    proof {
        assert(reasons@.map_values(|t: String| t@) =~= spec_filter_reasons(
            selected,
            index as int,
            max_items as int,
            token_budget,
        ));
    }
    let decision = if selected {
        String::from_str("selected_by_rank")
    } else if token_budget {
        String::from_str("excluded_by_rank_or_budget")
    } else {
        String::from_str("excluded_by_rank")
    };
    TraceDecision { filter_reasons: reasons, decision_reason: decision }
}

/// `i` is the first position of `id` among the selected ids.
pub open spec fn spec_first_position(ids: Seq<String>, id: Seq<char>, i: int) -> bool {
    &&& 0 <= i < ids.len()
    &&& ids[i]@ == id
    &&& forall|j: int| 0 <= j < i ==> ids[j]@ != id
}

/// Which candidates of a recall, in ranked order, were selected: a
/// candidate is selected when its id is among the selected ids. The hits of
/// the recall are the selected candidates, in ranked order, and the planning
/// trace reports the flag of each candidate.
pub fn selected_flags(ranked_ids: &Vec<String>, selected_ids: &Vec<String>) -> (r: Vec<bool>)
    ensures
        r@.len() == ranked_ids@.len(),
        forall|i: int|
            0 <= i < ranked_ids@.len() ==> #[trigger] r@[i] == exists|j: int|
                0 <= j < selected_ids@.len() && #[trigger] selected_ids@[j]@ == ranked_ids@[i]@,
{
    let n = ranked_ids.len();
    let mut out: Vec<bool> = Vec::new();
    let mut i: usize = 0;
    while i < n
        invariant
            n == ranked_ids@.len(),
            i <= n,
            out@.len() == i,
            forall|k: int|
                0 <= k < i ==> #[trigger] out@[k] == exists|j: int|
                    0 <= j < selected_ids@.len() && #[trigger] selected_ids@[j]@ == ranked_ids@[k]@,
        decreases n - i,
    {
        let found = list_contains(selected_ids, ranked_ids[i].as_str());
        out.push(found);
        i += 1;
    }
    out
}

/// The rank of a candidate among the selected ids: one more than the first
/// position of its id, or none when it was not selected.
pub fn selection_rank(selected_ids: &Vec<String>, id: &str) -> (r: Option<u32>)
    requires
        selected_ids@.len() < u32::MAX,
    ensures
        match r {
            Some(k) => k >= 1 && spec_first_position(selected_ids@, id@, k - 1),
            None => forall|j: int| 0 <= j < selected_ids@.len() ==> (#[trigger] selected_ids@[j])@ != id@,
        },
{
    let n = selected_ids.len();
    let mut i: usize = 0;
    while i < n
        invariant
            n == selected_ids@.len(),
            n < u32::MAX,
            i <= n,
            forall|j: int| 0 <= j < i ==> (#[trigger] selected_ids@[j])@ != id@,
        decreases n - i,
    {
        if crate::text::text_eq(selected_ids[i].as_str(), id) {
            return Some(i as u32 + 1);
        }
        i += 1;
    }
    None
}


/// Ties an explanation to the request that produced it: the correlation id
/// becomes its trace id; the trace id it had (the planner's) is kept as a
/// `planning_trace_id=` note, followed by a `correlation_id=` note.
pub fn attach_correlation_id(trace_id: &mut Option<String>, policy_notes: &mut Vec<String>, correlation_id: &str)
    ensures
        spec_option_text(*final(trace_id)) == Some(correlation_id@),
        final(policy_notes)@.map_values(|t: String| t@) == old(policy_notes)@.map_values(|t: String| t@)
            + match *old(trace_id) {
            Some(existing) => seq!["planning_trace_id="@ + existing@],
            None => Seq::<Seq<char>>::empty(),
        } + seq!["correlation_id="@ + correlation_id@],
{
    let ghost before = policy_notes@.map_values(|t: String| t@);
    let previous = trace_id.take();
    *trace_id = Some(String::from_str(correlation_id));
    match &previous {
        Some(existing) => {
            let mut note = String::from_str("planning_trace_id=");
            note.append(existing.as_str());
            policy_notes.push(note);
        },
        None => {},
    }
    let ghost middle = policy_notes@.map_values(|t: String| t@);
    proof {
        assert(middle =~= before + match previous {
            Some(existing) => seq!["planning_trace_id="@ + existing@],
            None => Seq::<Seq<char>>::empty(),
        });
    }
    let mut note = String::from_str("correlation_id=");
    note.append(correlation_id);
    policy_notes.push(note);
    proof {
        assert(policy_notes@.map_values(|t: String| t@) =~= middle.push("correlation_id="@ + correlation_id@));
    }
}

pub open spec fn spec_option_text(value: Option<String>) -> Option<Seq<char>> {
    match value {
        Some(v) => Some(v@),
        None => None,
    }
}

} // verus!
