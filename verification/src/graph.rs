//! Graph inspection: the records of a scope as nodes, and their episode,
//! chronology, causal, related, lineage and conflict links as typed edges.

use vstd::prelude::*;
use crate::model::{
    ConflictResolutionKind, ConflictReviewState, EpisodeContinuityState, LineageEdge,
    LineageRelationKind, MemoryQualityState, RecordFrame,
};
use crate::query::{
    GraphInspectionEdge, GraphInspectionEdgeKind, GraphInspectionNode, GraphInspectionReport,
    GraphInspectionRequest,
};
use crate::text::{
    copy_option_text, copy_texts, decimal_string, list_contains, spec_decimal, text_eq,
};

verus! {

/// An edge as text: source, target, kind and details.
pub struct EdgeView {
    pub source: Seq<char>,
    pub target: Seq<char>,
    pub kind: GraphInspectionEdgeKind,
    pub details: Seq<Seq<char>>,
}

impl GraphInspectionEdge {
    pub open spec fn spec_view(&self) -> EdgeView {
        EdgeView {
            source: self.source_id@,
            target: self.target_id@,
            kind: self.kind,
            details: self.details@.map_values(|d: String| d@),
        }
    }
}

pub open spec fn spec_edge_views(edges: Seq<GraphInspectionEdge>) -> Seq<EdgeView> {
    edges.map_values(|e: GraphInspectionEdge| e.spec_view())
}

pub open spec fn spec_continuity_name(s: EpisodeContinuityState) -> Seq<char> {
    match s {
        EpisodeContinuityState::Open => "Open"@,
        EpisodeContinuityState::Resolved => "Resolved"@,
        EpisodeContinuityState::Superseded => "Superseded"@,
        EpisodeContinuityState::Abandoned => "Abandoned"@,
    }
}

pub open spec fn spec_relation_name(r: LineageRelationKind) -> Seq<char> {
    match r {
        LineageRelationKind::DerivedFrom => "DerivedFrom"@,
        LineageRelationKind::ConsolidatedFrom => "ConsolidatedFrom"@,
        LineageRelationKind::Supersedes => "Supersedes"@,
        LineageRelationKind::SupersededBy => "SupersededBy"@,
        LineageRelationKind::ConflictsWith => "ConflictsWith"@,
    }
}

pub open spec fn spec_review_name(s: ConflictReviewState) -> Seq<char> {
    match s {
        ConflictReviewState::PotentialConflict => "PotentialConflict"@,
        ConflictReviewState::UnderReview => "UnderReview"@,
        ConflictReviewState::Resolved => "Resolved"@,
        ConflictReviewState::Dismissed => "Dismissed"@,
    }
}

pub open spec fn spec_resolution_name(k: ConflictResolutionKind) -> Seq<char> {
    match k {
        ConflictResolutionKind::Unresolved => "Unresolved"@,
        ConflictResolutionKind::KeepCurrent => "KeepCurrent"@,
        ConflictResolutionKind::KeepIncoming => "KeepIncoming"@,
        ConflictResolutionKind::Merged => "Merged"@,
    }
}

/// An optional filter admits a value when it is absent or equal to it.
pub open spec fn spec_admits(filter: Option<String>, value: Seq<char>) -> bool {
    match filter {
        Some(f) => f@ == value,
        None => true,
    }
}

/// An optional filter admits an optional value when it is absent, or the
/// value is present and equal to it.
pub open spec fn spec_admits_option(filter: Option<String>, value: Option<String>) -> bool {
    match filter {
        Some(f) => value matches Some(v) && v@ == f@,
        None => true,
    }
}

/// Whether a record is shown: it lies in the requested scope, and archived,
/// suppressed and deleted records only when they are asked for.
pub open spec fn spec_includes(record: RecordFrame, request: GraphInspectionRequest) -> bool {
    &&& spec_admits(request.tenant_id, record.scope.tenant_id@)
    &&& spec_admits(request.namespace, record.scope.namespace@)
    &&& spec_admits(request.actor_id, record.scope.actor_id@)
    &&& spec_admits_option(request.conversation_id, record.scope.conversation_id)
    &&& spec_admits_option(request.session_id, record.scope.session_id)
    &&& match record.quality_state {
        MemoryQualityState::Archived => request.include_archived,
        MemoryQualityState::Suppressed => request.include_suppressed,
        MemoryQualityState::Deleted => request.include_deleted,
        _ => true,
    }
}

/// The records shown, in order, and whether a shown record was left out
/// because the node limit was reached.
pub open spec fn spec_selection(records: Seq<RecordFrame>, request: GraphInspectionRequest) -> (
    Seq<RecordFrame>,
    bool,
)
    decreases records.len(),
{
    if records.len() == 0 {
        (seq![], false)
    } else {
        let (selected, truncated) = spec_selection(records.drop_last(), request);
        let record = records.last();
        if truncated || !spec_includes(record, request) {
            (selected, truncated)
        } else if request.max_nodes is Some && selected.len() >= request.max_nodes->0 {
            (selected, true)
        } else {
            (selected.push(record), false)
        }
    }
}

/// The node that shows a record.
pub open spec fn spec_node(record: RecordFrame) -> GraphInspectionNode {
    GraphInspectionNode {
        record_id: record.id,
        tenant_id: record.scope.tenant_id,
        namespace: record.scope.namespace,
        actor_id: record.scope.actor_id,
        kind: record.kind,
        summary: record.summary,
        quality_state: record.quality_state,
        historical_state: record.historical_state,
        episode_id: match record.episode {
            Some(e) => Some(e.episode_id),
            None => None,
        },
        continuity_state: match record.episode {
            Some(e) => Some(e.continuity_state),
            None => None,
        },
        conflict_state: match record.conflict {
            Some(c) => Some(c.state),
            None => None,
        },
        importance_per_mille: record.importance_per_mille,
        updated_at_unix_ms: record.updated_at_unix_ms,
    }
}

/// Whether some shown record has id `id`.
pub open spec fn spec_has_id(selected: Seq<RecordFrame>, id: Seq<char>) -> bool {
    exists|i: int| 0 <= i < selected.len() && #[trigger] selected[i].id@ == id
}

/// Edges of `kind` with `details` from `source` to each id of `ids` that is shown.
pub open spec fn spec_links(
    ids: Seq<String>,
    source: Seq<char>,
    selected: Seq<RecordFrame>,
    kind: GraphInspectionEdgeKind,
    details: Seq<Seq<char>>,
) -> Seq<EdgeView>
    decreases ids.len(),
{
    if ids.len() == 0 {
        seq![]
    } else {
        spec_links(ids.drop_last(), source, selected, kind, details) + if spec_has_id(
            selected,
            ids.last()@,
        ) {
            seq![EdgeView { source, target: ids.last()@, kind, details }]
        } else {
            seq![]
        }
    }
}

pub open spec fn spec_lineage_details(link: LineageEdge) -> Seq<Seq<char>> {
    seq![
        "relation="@ + spec_relation_name(link.relation),
        "confidence_per_mille="@ + spec_decimal(link.confidence_per_mille as nat),
    ]
}

/// Lineage edges from `source` to each linked record that is shown.
pub open spec fn spec_lineage_links(
    links: Seq<LineageEdge>,
    source: Seq<char>,
    selected: Seq<RecordFrame>,
) -> Seq<EdgeView>
    decreases links.len(),
{
    if links.len() == 0 {
        seq![]
    } else {
        spec_lineage_links(links.drop_last(), source, selected) + if spec_has_id(
            selected,
            links.last().record_id@,
        ) {
            seq![
                EdgeView {
                    source,
                    target: links.last().record_id@,
                    kind: GraphInspectionEdgeKind::Lineage,
                    details: spec_lineage_details(links.last()),
                },
            ]
        } else {
            seq![]
        }
    }
}

pub open spec fn spec_optional_link(
    id: Option<String>,
    source: Seq<char>,
    selected: Seq<RecordFrame>,
    kind: GraphInspectionEdgeKind,
) -> Seq<EdgeView> {
    match id {
        Some(t) => if spec_has_id(selected, t@) {
            seq![EdgeView { source, target: t@, kind, details: seq![] }]
        } else {
            seq![]
        },
        None => seq![],
    }
}

/// The edges a shown record proposes, in order, before duplicates and
/// self links are dropped.
pub open spec fn spec_candidates(record: RecordFrame, selected: Seq<RecordFrame>) -> Seq<EdgeView> {
    let source = record.id@;
    let episode_part = match record.episode {
        Some(e) => (if e.episode_id@.len() > 0 {
            seq![
                EdgeView {
                    source,
                    target: "episode:"@ + e.episode_id@,
                    kind: GraphInspectionEdgeKind::EpisodeMembership,
                    details: seq!["continuity_state="@ + spec_continuity_name(e.continuity_state)],
                },
            ]
        } else {
            seq![]
        }) + spec_optional_link(
            e.previous_record_id,
            source,
            selected,
            GraphInspectionEdgeKind::ChronologyPrevious,
        ) + spec_optional_link(
            e.next_record_id,
            source,
            selected,
            GraphInspectionEdgeKind::ChronologyNext,
        ) + spec_links(
            e.causal_record_ids@,
            source,
            selected,
            GraphInspectionEdgeKind::Causal,
            seq![],
        ) + spec_links(
            e.related_record_ids@,
            source,
            selected,
            GraphInspectionEdgeKind::Related,
            seq![],
        ),
        None => seq![],
    };
    let conflict_part = match record.conflict {
        Some(c) => spec_links(
            c.conflicting_record_ids@,
            source,
            selected,
            GraphInspectionEdgeKind::Conflict,
            seq!["state="@ + spec_review_name(c.state), "resolution="@ + spec_resolution_name(c.resolution)],
        ),
        None => seq![],
    };
    episode_part + spec_lineage_links(record.lineage@, source, selected) + conflict_part
}

/// Whether `edges` already has an edge from `e`'s source to its target of its kind.
pub open spec fn spec_has_key(edges: Seq<EdgeView>, e: EdgeView) -> bool {
    exists|i: int|
        0 <= i < edges.len() && #[trigger] edges[i].source == e.source && edges[i].target
            == e.target && edges[i].kind == e.kind
}

/// Adds an edge unless it links a record to itself or repeats an edge of the
/// same kind between the same records.
pub open spec fn spec_push_edge(edges: Seq<EdgeView>, e: EdgeView) -> Seq<EdgeView> {
    if e.source == e.target || spec_has_key(edges, e) {
        edges
    } else {
        edges.push(e)
    }
}

pub open spec fn spec_push_all(edges: Seq<EdgeView>, candidates: Seq<EdgeView>) -> Seq<EdgeView>
    decreases candidates.len(),
{
    if candidates.len() == 0 {
        edges
    } else {
        spec_push_edge(spec_push_all(edges, candidates.drop_last()), candidates.last())
    }
}

/// The edges of the report: the candidates of each record whose id is shown,
/// in record order.
pub open spec fn spec_edges(records: Seq<RecordFrame>, selected: Seq<RecordFrame>) -> Seq<EdgeView>
    decreases records.len(),
{
    if records.len() == 0 {
        seq![]
    } else {
        let edges = spec_edges(records.drop_last(), selected);
        if spec_has_id(selected, records.last().id@) {
            spec_push_all(edges, spec_candidates(records.last(), selected))
        } else {
            edges
        }
    }
}

pub proof fn lemma_push_all_concat(edges: Seq<EdgeView>, a: Seq<EdgeView>, b: Seq<EdgeView>)
    ensures
        spec_push_all(edges, a + b) == spec_push_all(spec_push_all(edges, a), b),
    decreases b.len(),
{
    if b.len() == 0 {
        assert(a + b =~= a);
    } else {
        assert((a + b).drop_last() =~= a + b.drop_last());
        assert((a + b).last() == b.last());
        lemma_push_all_concat(edges, a, b.drop_last());
    }
}

pub proof fn lemma_push_all_one(edges: Seq<EdgeView>, e: EdgeView)
    ensures
        spec_push_all(edges, seq![e]) == spec_push_edge(edges, e),
{
    assert(seq![e].drop_last() =~= Seq::<EdgeView>::empty());
    assert(spec_push_all(edges, seq![e].drop_last()) == edges);
}

fn continuity_name(s: EpisodeContinuityState) -> (r: &'static str)
    ensures
        r@ == spec_continuity_name(s),
{
    match s {
        EpisodeContinuityState::Open => "Open",
        EpisodeContinuityState::Resolved => "Resolved",
        EpisodeContinuityState::Superseded => "Superseded",
        EpisodeContinuityState::Abandoned => "Abandoned",
    }
}

fn relation_name(r: LineageRelationKind) -> (s: &'static str)
    ensures
        s@ == spec_relation_name(r),
{
    match r {
        LineageRelationKind::DerivedFrom => "DerivedFrom",
        LineageRelationKind::ConsolidatedFrom => "ConsolidatedFrom",
        LineageRelationKind::Supersedes => "Supersedes",
        LineageRelationKind::SupersededBy => "SupersededBy",
        LineageRelationKind::ConflictsWith => "ConflictsWith",
    }
}

fn review_name(s: ConflictReviewState) -> (r: &'static str)
    ensures
        r@ == spec_review_name(s),
{
    match s {
        ConflictReviewState::PotentialConflict => "PotentialConflict",
        ConflictReviewState::UnderReview => "UnderReview",
        ConflictReviewState::Resolved => "Resolved",
        ConflictReviewState::Dismissed => "Dismissed",
    }
}

fn resolution_name(k: ConflictResolutionKind) -> (r: &'static str)
    ensures
        r@ == spec_resolution_name(k),
{
    match k {
        ConflictResolutionKind::Unresolved => "Unresolved",
        ConflictResolutionKind::KeepCurrent => "KeepCurrent",
        ConflictResolutionKind::KeepIncoming => "KeepIncoming",
        ConflictResolutionKind::Merged => "Merged",
    }
}

fn joined(prefix: &str, rest: &str) -> (r: String)
    ensures
        r@ == prefix@ + rest@,
{
    let mut out = String::from_str(prefix);
    out.append(rest);
    out
}

fn admits(filter: &Option<String>, value: &str) -> (r: bool)
    ensures
        r == spec_admits(*filter, value@),
{
    match filter {
        Some(f) => text_eq(f.as_str(), value),
        None => true,
    }
}

fn admits_option(filter: &Option<String>, value: &Option<String>) -> (r: bool)
    ensures
        r == spec_admits_option(*filter, *value),
{
    match filter {
        Some(f) => match value {
            Some(v) => text_eq(v.as_str(), f.as_str()),
            None => false,
        },
        None => true,
    }
}

fn includes_record(record: &RecordFrame, request: &GraphInspectionRequest) -> (r: bool)
    ensures
        r == spec_includes(*record, *request),
{
    if !admits(&request.tenant_id, record.scope.tenant_id.as_str()) || !admits(
        &request.namespace,
        record.scope.namespace.as_str(),
    ) || !admits(&request.actor_id, record.scope.actor_id.as_str()) || !admits_option(
        &request.conversation_id,
        &record.scope.conversation_id,
    ) || !admits_option(&request.session_id, &record.scope.session_id) {
        return false;
    }
    match record.quality_state {
        MemoryQualityState::Archived => request.include_archived,
        MemoryQualityState::Suppressed => request.include_suppressed,
        MemoryQualityState::Deleted => request.include_deleted,
        _ => true,
    }
}

fn node_of(record: &RecordFrame) -> (r: GraphInspectionNode)
    ensures
        r == spec_node(*record),
{
    GraphInspectionNode {
        record_id: record.id.clone(),
        tenant_id: record.scope.tenant_id.clone(),
        namespace: record.scope.namespace.clone(),
        actor_id: record.scope.actor_id.clone(),
        kind: record.kind,
        summary: copy_option_text(&record.summary),
        quality_state: record.quality_state,
        historical_state: record.historical_state,
        episode_id: match &record.episode {
            Some(e) => Some(e.episode_id.clone()),
            None => None,
        },
        continuity_state: match &record.episode {
            Some(e) => Some(e.continuity_state),
            None => None,
        },
        conflict_state: match &record.conflict {
            Some(c) => Some(c.state),
            None => None,
        },
        importance_per_mille: record.importance_per_mille,
        updated_at_unix_ms: record.updated_at_unix_ms,
    }
}

/// The shown records and their ids are kept side by side.
pub open spec fn spec_ids_of(selected: Seq<RecordFrame>, ids: Seq<String>) -> bool {
    &&& ids.len() == selected.len()
    &&& forall|i: int| 0 <= i < ids.len() ==> #[trigger] ids[i]@ == selected[i].id@
}

proof fn lemma_has_id_via_ids(selected: Seq<RecordFrame>, ids: Seq<String>, id: Seq<char>)
    requires
        spec_ids_of(selected, ids),
    ensures
        spec_has_id(selected, id) == (exists|i: int| 0 <= i < ids.len() && #[trigger] ids[i]@ == id),
{
    if spec_has_id(selected, id) {
        let i = choose|i: int| 0 <= i < selected.len() && #[trigger] selected[i].id@ == id;
        assert(ids[i]@ == id);
    }
    if exists|i: int| 0 <= i < ids.len() && #[trigger] ids[i]@ == id {
        let i = choose|i: int| 0 <= i < ids.len() && #[trigger] ids[i]@ == id;
        assert(selected[i].id@ == id);
    }
}

fn is_shown(ids: &Vec<String>, id: &str, Ghost(selected): Ghost<Seq<RecordFrame>>) -> (r: bool)
    requires
        spec_ids_of(selected, ids@),
    ensures
        r == spec_has_id(selected, id@),
{
    proof {
        lemma_has_id_via_ids(selected, ids@, id@);
    }
    list_contains(ids, id)
}

/// Adds `edge` unless it is a self link or repeats an existing edge.
fn push_edge(edges: &mut Vec<GraphInspectionEdge>, edge: GraphInspectionEdge)
    ensures
        spec_edge_views(final(edges)@) == spec_push_edge(
            spec_edge_views(old(edges)@),
            edge.spec_view(),
        ),
{
    let ghost views = spec_edge_views(edges@);
    if text_eq(edge.source_id.as_str(), edge.target_id.as_str()) {
        return;
    }
    let n = edges.len();
    let mut i: usize = 0;
    while i < n
        invariant
            n == edges@.len(),
            views == spec_edge_views(edges@),
            i <= n,
            forall|j: int|
                0 <= j < i ==> !(#[trigger] views[j].source == edge.spec_view().source
                    && views[j].target == edge.spec_view().target && views[j].kind
                    == edge.spec_view().kind),
        decreases n - i,
    {
        let existing = &edges[i];
        if text_eq(existing.source_id.as_str(), edge.source_id.as_str()) && text_eq(
            existing.target_id.as_str(),
            edge.target_id.as_str(),
        ) && existing.kind == edge.kind {
            assert(views[i as int] == existing.spec_view());
            assert(views[i as int].source == edge.spec_view().source);
            assert(spec_has_key(views, edge.spec_view()));
            return;
        }
        assert(views[i as int] == existing.spec_view());
        i += 1;
    }
    edges.push(edge);
    assert(spec_edge_views(edges@) =~= views.push(edge.spec_view()));
}

} // verus!

verus! {

proof fn lemma_push_step(
    edges: Seq<EdgeView>,
    done: Seq<EdgeView>,
    next: Seq<EdgeView>,
)
    ensures
        spec_push_all(edges, done + next) == spec_push_all(spec_push_all(edges, done), next),
{
    lemma_push_all_concat(edges, done, next);
}

fn push_links(
    edges: &mut Vec<GraphInspectionEdge>,
    ids: &Vec<String>,
    source: &str,
    shown: &Vec<String>,
    Ghost(selected): Ghost<Seq<RecordFrame>>,
    kind: GraphInspectionEdgeKind,
    details: &Vec<String>,
)
    requires
        spec_ids_of(selected, shown@),
    ensures
        spec_edge_views(final(edges)@) == spec_push_all(
            spec_edge_views(old(edges)@),
            spec_links(ids@, source@, selected, kind, details@.map_values(|d: String| d@)),
        ),
{
    let ghost start = spec_edge_views(edges@);
    let ghost dv = details@.map_values(|d: String| d@);
    let n = ids.len();
    let mut i: usize = 0;
    assert(ids@.subrange(0, 0) =~= Seq::<String>::empty());
    while i < n
        invariant
            n == ids@.len(),
            i <= n,
            spec_ids_of(selected, shown@),
            dv == details@.map_values(|d: String| d@),
            spec_edge_views(edges@) == spec_push_all(
                start,
                spec_links(ids@.subrange(0, i as int), source@, selected, kind, dv),
            ),
        decreases n - i,
    {
        let ghost before = ids@.subrange(0, i as int);
        let ghost after = ids@.subrange(0, i + 1);
        assert(after.drop_last() =~= before);
        let target = &ids[i];
        let shown_here = is_shown(shown, target.as_str(), Ghost(selected));
        proof {
            lemma_push_step(start, spec_links(before, source@, selected, kind, dv), if shown_here {
                seq![EdgeView { source: source@, target: target@, kind, details: dv }]
            } else {
                seq![]
            });
        }
        if shown_here {
            let edge = GraphInspectionEdge {
                source_id: String::from_str(source),
                target_id: target.clone(),
                kind,
                details: copy_texts(details),
            };
            proof {
                lemma_push_all_one(
                    spec_edge_views(edges@),
                    EdgeView { source: source@, target: target@, kind, details: dv },
                );
            }
            assert(edge.spec_view() == EdgeView { source: source@, target: target@, kind, details: dv });
            push_edge(edges, edge);
        }
        i += 1;
    }
    assert(ids@.subrange(0, n as int) =~= ids@);
}

fn push_lineage_links(
    edges: &mut Vec<GraphInspectionEdge>,
    links: &Vec<LineageEdge>,
    source: &str,
    shown: &Vec<String>,
    Ghost(selected): Ghost<Seq<RecordFrame>>,
)
    requires
        spec_ids_of(selected, shown@),
    ensures
        spec_edge_views(final(edges)@) == spec_push_all(
            spec_edge_views(old(edges)@),
            spec_lineage_links(links@, source@, selected),
        ),
{
    let ghost start = spec_edge_views(edges@);
    let n = links.len();
    let mut i: usize = 0;
    assert(links@.subrange(0, 0) =~= Seq::<LineageEdge>::empty());
    while i < n
        invariant
            n == links@.len(),
            i <= n,
            spec_ids_of(selected, shown@),
            spec_edge_views(edges@) == spec_push_all(
                start,
                spec_lineage_links(links@.subrange(0, i as int), source@, selected),
            ),
        decreases n - i,
    {
        let ghost before = links@.subrange(0, i as int);
        let ghost after = links@.subrange(0, i + 1);
        assert(after.drop_last() =~= before);
        let link = &links[i];
        let shown_here = is_shown(shown, link.record_id.as_str(), Ghost(selected));
        let ghost one = EdgeView {
            source: source@,
            target: link.record_id@,
            kind: GraphInspectionEdgeKind::Lineage,
            details: spec_lineage_details(*link),
        };
        proof {
            lemma_push_step(start, spec_lineage_links(before, source@, selected), if shown_here {
                seq![one]
            } else {
                seq![]
            });
        }
        if shown_here {
            let mut details: Vec<String> = Vec::new();
            details.push(joined("relation=", relation_name(link.relation)));
            let per_mille = decimal_string(link.confidence_per_mille as u64);
            details.push(joined("confidence_per_mille=", per_mille.as_str()));
            let edge = GraphInspectionEdge {
                source_id: String::from_str(source),
                target_id: link.record_id.clone(),
                kind: GraphInspectionEdgeKind::Lineage,
                details,
            };
            assert(edge.spec_view().details =~= spec_lineage_details(*link));
            proof {
                lemma_push_all_one(spec_edge_views(edges@), one);
            }
            push_edge(edges, edge);
        }
        i += 1;
    }
    assert(links@.subrange(0, n as int) =~= links@);
}

fn push_optional_link(
    edges: &mut Vec<GraphInspectionEdge>,
    id: &Option<String>,
    source: &str,
    shown: &Vec<String>,
    Ghost(selected): Ghost<Seq<RecordFrame>>,
    kind: GraphInspectionEdgeKind,
)
    requires
        spec_ids_of(selected, shown@),
    ensures
        spec_edge_views(final(edges)@) == spec_push_all(
            spec_edge_views(old(edges)@),
            spec_optional_link(*id, source@, selected, kind),
        ),
{
    match id {
        Some(target) => {
            if is_shown(shown, target.as_str(), Ghost(selected)) {
                let edge = GraphInspectionEdge {
                    source_id: String::from_str(source),
                    target_id: target.clone(),
                    kind,
                    details: Vec::new(),
                };
                proof {
                    lemma_push_all_one(spec_edge_views(edges@), edge.spec_view());
                    assert(edge.spec_view().details =~= Seq::<Seq<char>>::empty());
                }
                push_edge(edges, edge);
            } else {
                assert(spec_push_all(spec_edge_views(edges@), seq![]) == spec_edge_views(edges@));
            }
        },
        None => {
            assert(spec_push_all(spec_edge_views(edges@), seq![]) == spec_edge_views(edges@));
        },
    }
}

fn push_candidates(
    edges: &mut Vec<GraphInspectionEdge>,
    record: &RecordFrame,
    shown: &Vec<String>,
    Ghost(selected): Ghost<Seq<RecordFrame>>,
)
    requires
        spec_ids_of(selected, shown@),
    ensures
        spec_edge_views(final(edges)@) == spec_push_all(
            spec_edge_views(old(edges)@),
            spec_candidates(*record, selected),
        ),
{
    let ghost start = spec_edge_views(edges@);
    let source = record.id.as_str();
    let ghost mut done: Seq<EdgeView> = seq![];
    assert(spec_push_all(start, done) == start);
    match &record.episode {
        Some(e) => {
            if e.episode_id.unicode_len() > 0 {
                let mut details: Vec<String> = Vec::new();
                details.push(joined("continuity_state=", continuity_name(e.continuity_state)));
                let edge = GraphInspectionEdge {
                    source_id: String::from_str(source),
                    target_id: joined("episode:", e.episode_id.as_str()),
                    kind: GraphInspectionEdgeKind::EpisodeMembership,
                    details,
                };
                proof {
                    assert(edge.spec_view().details =~= seq![
                        "continuity_state="@ + spec_continuity_name(e.continuity_state),
                    ]);
                    lemma_push_all_one(spec_edge_views(edges@), edge.spec_view());
                    lemma_push_step(start, done, seq![edge.spec_view()]);
                    done = done + seq![edge.spec_view()];
                }
                push_edge(edges, edge);
            }
            proof {
                lemma_push_step(start, done, spec_optional_link(e.previous_record_id, source@, selected, GraphInspectionEdgeKind::ChronologyPrevious));
                done = done + spec_optional_link(e.previous_record_id, source@, selected, GraphInspectionEdgeKind::ChronologyPrevious);
            }
            push_optional_link(
                edges,
                &e.previous_record_id,
                source,
                shown,
                Ghost(selected),
                GraphInspectionEdgeKind::ChronologyPrevious,
            );
            proof {
                lemma_push_step(start, done, spec_optional_link(e.next_record_id, source@, selected, GraphInspectionEdgeKind::ChronologyNext));
                done = done + spec_optional_link(e.next_record_id, source@, selected, GraphInspectionEdgeKind::ChronologyNext);
            }
            push_optional_link(
                edges,
                &e.next_record_id,
                source,
                shown,
                Ghost(selected),
                GraphInspectionEdgeKind::ChronologyNext,
            );
            let no_details: Vec<String> = Vec::new();
            assert(no_details@.map_values(|d: String| d@) =~= Seq::<Seq<char>>::empty());
            proof {
                let part = spec_links(e.causal_record_ids@, source@, selected, GraphInspectionEdgeKind::Causal, seq![]);
                lemma_push_step(start, done, part);
                done = done + part;
            }
            push_links(
                edges,
                &e.causal_record_ids,
                source,
                shown,
                Ghost(selected),
                GraphInspectionEdgeKind::Causal,
                &no_details,
            );
            proof {
                let part = spec_links(e.related_record_ids@, source@, selected, GraphInspectionEdgeKind::Related, seq![]);
                lemma_push_step(start, done, part);
                done = done + part;
            }
            push_links(
                edges,
                &e.related_record_ids,
                source,
                shown,
                Ghost(selected),
                GraphInspectionEdgeKind::Related,
                &no_details,
            );
        },
        None => {},
    }
    proof {
        let part = spec_lineage_links(record.lineage@, source@, selected);
        lemma_push_step(start, done, part);
        done = done + part;
    }
    push_lineage_links(edges, &record.lineage, source, shown, Ghost(selected));
    match &record.conflict {
        Some(c) => {
            let mut details: Vec<String> = Vec::new();
            details.push(joined("state=", review_name(c.state)));
            details.push(joined("resolution=", resolution_name(c.resolution)));
            let ghost dv = seq!["state="@ + spec_review_name(c.state), "resolution="@ + spec_resolution_name(c.resolution)];
            assert(details@.map_values(|d: String| d@) =~= dv);
            proof {
                let part = spec_links(c.conflicting_record_ids@, source@, selected, GraphInspectionEdgeKind::Conflict, dv);
                lemma_push_step(start, done, part);
                done = done + part;
            }
            push_links(
                edges,
                &c.conflicting_record_ids,
                source,
                shown,
                Ghost(selected),
                GraphInspectionEdgeKind::Conflict,
                &details,
            );
        },
        None => {},
    }
    assert(done =~= spec_candidates(*record, selected));
}

/// Builds the inspection graph of `records`: the shown records as nodes, up
/// to `max_nodes` of them, and the typed links between shown records (and
/// to their episodes) as edges without self links or repeats.
pub fn build_graph_inspection_report(
    records: &[RecordFrame],
    request: &GraphInspectionRequest,
    generated_at_unix_ms: u64,
) -> (r: GraphInspectionReport)
    ensures
        r.generated_at_unix_ms == generated_at_unix_ms,
        r.total_records_scanned == records@.len(),
        r.nodes@ == spec_selection(records@, *request).0.map_values(|x: RecordFrame| spec_node(x)),
        r.truncated == spec_selection(records@, *request).1,
        spec_edge_views(r.edges@) == spec_edges(records@, spec_selection(records@, *request).0),
{
    let n = records.len();
    let mut nodes: Vec<GraphInspectionNode> = Vec::new();
    let mut shown: Vec<String> = Vec::new();
    let mut truncated = false;
    let ghost mut selected: Seq<RecordFrame> = seq![];
    let mut i: usize = 0;
    assert(records@.subrange(0, 0) =~= Seq::<RecordFrame>::empty());
    while i < n
        invariant
            n == records@.len(),
            i <= n,
            (selected, truncated) == spec_selection(records@.subrange(0, i as int), *request),
            nodes@ == selected.map_values(|x: RecordFrame| spec_node(x)),
            spec_ids_of(selected, shown@),
        decreases n - i,
    {
        let record = &records[i];
        assert(records@.subrange(0, i + 1).drop_last() =~= records@.subrange(0, i as int));
        assert(records@.subrange(0, i + 1).last() == *record);
        if !truncated && includes_record(record, request) {
            let full = match request.max_nodes {
                Some(limit) => nodes.len() >= limit,
                None => false,
            };
            if full {
                truncated = true;
            } else {
                nodes.push(node_of(record));
                shown.push(record.id.clone());
                proof {
                    selected = selected.push(*record);
                }
                assert(nodes@ =~= selected.map_values(|x: RecordFrame| spec_node(x)));
            }
        }
        i += 1;
    }
    assert(records@.subrange(0, n as int) =~= records@);
    let mut edges: Vec<GraphInspectionEdge> = Vec::new();
    let mut k: usize = 0;
    assert(spec_edge_views(edges@) =~= Seq::<EdgeView>::empty());
    while k < n
        invariant
            n == records@.len(),
            k <= n,
            (selected, truncated) == spec_selection(records@, *request),
            spec_ids_of(selected, shown@),
            spec_edge_views(edges@) == spec_edges(records@.subrange(0, k as int), selected),
        decreases n - k,
    {
        let record = &records[k];
        assert(records@.subrange(0, k + 1).drop_last() =~= records@.subrange(0, k as int));
        assert(records@.subrange(0, k + 1).last() == *record);
        if is_shown(&shown, record.id.as_str(), Ghost(selected)) {
            push_candidates(&mut edges, record, &shown, Ghost(selected));
        }
        k += 1;
    }
    GraphInspectionReport {
        generated_at_unix_ms,
        total_records_scanned: n as u64,
        nodes,
        edges,
        truncated,
    }
}

} // verus!

verus! {

/// No edge links a record to itself, and no two edges share source, target and kind.
pub open spec fn spec_edges_distinct(edges: Seq<EdgeView>) -> bool {
    &&& forall|i: int| 0 <= i < edges.len() ==> #[trigger] edges[i].source != edges[i].target
    &&& forall|i: int, j: int|
        0 <= i < j < edges.len() ==> !(#[trigger] edges[i].source == #[trigger] edges[j].source
            && edges[i].target == edges[j].target && edges[i].kind == edges[j].kind)
}

/// Every edge that is not an episode membership points at a shown record.
pub open spec fn spec_edges_point_at_shown(edges: Seq<EdgeView>, selected: Seq<RecordFrame>) -> bool {
    forall|i: int|
        0 <= i < edges.len() && #[trigger] edges[i].kind != GraphInspectionEdgeKind::EpisodeMembership
            ==> spec_has_id(selected, edges[i].target)
}

proof fn lemma_push_all_keeps(edges: Seq<EdgeView>, candidates: Seq<EdgeView>, selected: Seq<RecordFrame>)
    requires
        spec_edges_distinct(edges),
        spec_edges_point_at_shown(edges, selected),
        spec_edges_point_at_shown(candidates, selected),
    ensures
        spec_edges_distinct(spec_push_all(edges, candidates)),
        spec_edges_point_at_shown(spec_push_all(edges, candidates), selected),
    decreases candidates.len(),
{
    if candidates.len() > 0 {
        let rest = candidates.drop_last();
        assert forall|i: int|
            0 <= i < rest.len() && #[trigger] rest[i].kind != GraphInspectionEdgeKind::EpisodeMembership
                implies spec_has_id(selected, rest[i].target) by {
            assert(rest[i] == candidates[i]);
        }
        lemma_push_all_keeps(edges, rest, selected);
        let acc = spec_push_all(edges, rest);
        let e = candidates.last();
        assert(candidates[candidates.len() - 1] == e);
        if !(e.source == e.target || spec_has_key(acc, e)) {
            let out = acc.push(e);
            assert forall|i: int, j: int|
                0 <= i < j < out.len() implies !(#[trigger] out[i].source == #[trigger] out[j].source
                    && out[i].target == out[j].target && out[i].kind == out[j].kind) by {
                if j == out.len() - 1 {
                    if out[i].source == out[j].source && out[i].target == out[j].target
                        && out[i].kind == out[j].kind {
                        assert(acc[i].source == e.source);
                        assert(spec_has_key(acc, e));
                    }
                } else {
                    assert(out[i] == acc[i] && out[j] == acc[j]);
                }
            }
            assert forall|i: int|
                0 <= i < out.len() && #[trigger] out[i].kind != GraphInspectionEdgeKind::EpisodeMembership
                    implies spec_has_id(selected, out[i].target) by {
                if i < acc.len() {
                    assert(out[i] == acc[i]);
                }
            }
            assert forall|i: int| 0 <= i < out.len() implies #[trigger] out[i].source != out[i].target by {
                if i < acc.len() {
                    assert(out[i] == acc[i]);
                }
            }
        }
    }
}

proof fn lemma_links_shown(
    ids: Seq<String>,
    source: Seq<char>,
    selected: Seq<RecordFrame>,
    kind: GraphInspectionEdgeKind,
    details: Seq<Seq<char>>,
)
    ensures
        spec_edges_point_at_shown(spec_links(ids, source, selected, kind, details), selected),
    decreases ids.len(),
{
    if ids.len() > 0 {
        lemma_links_shown(ids.drop_last(), source, selected, kind, details);
        let a = spec_links(ids.drop_last(), source, selected, kind, details);
        let b = if spec_has_id(selected, ids.last()@) {
            seq![EdgeView { source, target: ids.last()@, kind, details }]
        } else {
            seq![]
        };
        assert forall|i: int|
            0 <= i < (a + b).len() && #[trigger] (a + b)[i].kind
                != GraphInspectionEdgeKind::EpisodeMembership implies spec_has_id(
            selected,
            (a + b)[i].target,
        ) by {
            if i < a.len() {
                assert((a + b)[i] == a[i]);
            }
        }
    }
}

proof fn lemma_lineage_shown(links: Seq<LineageEdge>, source: Seq<char>, selected: Seq<RecordFrame>)
    ensures
        spec_edges_point_at_shown(spec_lineage_links(links, source, selected), selected),
    decreases links.len(),
{
    if links.len() > 0 {
        lemma_lineage_shown(links.drop_last(), source, selected);
        let a = spec_lineage_links(links.drop_last(), source, selected);
        let b = if spec_has_id(selected, links.last().record_id@) {
            seq![
                EdgeView {
                    source,
                    target: links.last().record_id@,
                    kind: GraphInspectionEdgeKind::Lineage,
                    details: spec_lineage_details(links.last()),
                },
            ]
        } else {
            seq![]
        };
        assert forall|i: int|
            0 <= i < (a + b).len() && #[trigger] (a + b)[i].kind
                != GraphInspectionEdgeKind::EpisodeMembership implies spec_has_id(
            selected,
            (a + b)[i].target,
        ) by {
            if i < a.len() {
                assert((a + b)[i] == a[i]);
            }
        }
    }
}

proof fn lemma_concat_shown(a: Seq<EdgeView>, b: Seq<EdgeView>, selected: Seq<RecordFrame>)
    requires
        spec_edges_point_at_shown(a, selected),
        spec_edges_point_at_shown(b, selected),
    ensures
        spec_edges_point_at_shown(a + b, selected),
{
    assert forall|i: int|
        0 <= i < (a + b).len() && #[trigger] (a + b)[i].kind
            != GraphInspectionEdgeKind::EpisodeMembership implies spec_has_id(
        selected,
        (a + b)[i].target,
    ) by {
        if i < a.len() {
            assert((a + b)[i] == a[i]);
        } else {
            assert((a + b)[i] == b[i - a.len()]);
        }
    }
}

proof fn lemma_candidates_shown(record: RecordFrame, selected: Seq<RecordFrame>)
    ensures
        spec_edges_point_at_shown(spec_candidates(record, selected), selected),
{
    let source = record.id@;
    let empty: Seq<EdgeView> = seq![];
    let episode_part = match record.episode {
        Some(e) => {
            let membership: Seq<EdgeView> = if e.episode_id@.len() > 0 {
                seq![
                    EdgeView {
                        source,
                        target: "episode:"@ + e.episode_id@,
                        kind: GraphInspectionEdgeKind::EpisodeMembership,
                        details: seq!["continuity_state="@ + spec_continuity_name(e.continuity_state)],
                    },
                ]
            } else {
                seq![]
            };
            let prev = spec_optional_link(e.previous_record_id, source, selected, GraphInspectionEdgeKind::ChronologyPrevious);
            let next = spec_optional_link(e.next_record_id, source, selected, GraphInspectionEdgeKind::ChronologyNext);
            let causal = spec_links(e.causal_record_ids@, source, selected, GraphInspectionEdgeKind::Causal, seq![]);
            let related = spec_links(e.related_record_ids@, source, selected, GraphInspectionEdgeKind::Related, seq![]);
            lemma_links_shown(e.causal_record_ids@, source, selected, GraphInspectionEdgeKind::Causal, seq![]);
            lemma_links_shown(e.related_record_ids@, source, selected, GraphInspectionEdgeKind::Related, seq![]);
            assert(spec_edges_point_at_shown(membership, selected));
            assert(spec_edges_point_at_shown(prev, selected));
            assert(spec_edges_point_at_shown(next, selected));
            lemma_concat_shown(membership, prev, selected);
            lemma_concat_shown(membership + prev, next, selected);
            lemma_concat_shown(membership + prev + next, causal, selected);
            lemma_concat_shown(membership + prev + next + causal, related, selected);
            membership + prev + next + causal + related
        },
        None => empty,
    };
    let conflict_part = match record.conflict {
        Some(c) => {
            let dv = seq!["state="@ + spec_review_name(c.state), "resolution="@ + spec_resolution_name(c.resolution)];
            lemma_links_shown(c.conflicting_record_ids@, source, selected, GraphInspectionEdgeKind::Conflict, dv);
            spec_links(c.conflicting_record_ids@, source, selected, GraphInspectionEdgeKind::Conflict, dv)
        },
        None => empty,
    };
    lemma_lineage_shown(record.lineage@, source, selected);
    let lineage = spec_lineage_links(record.lineage@, source, selected);
    lemma_concat_shown(episode_part, lineage, selected);
    lemma_concat_shown(episode_part + lineage, conflict_part, selected);
    assert(spec_candidates(record, selected) == episode_part + lineage + conflict_part);
}

proof fn lemma_edges_keep(records: Seq<RecordFrame>, selected: Seq<RecordFrame>)
    ensures
        spec_edges_distinct(spec_edges(records, selected)),
        spec_edges_point_at_shown(spec_edges(records, selected), selected),
    decreases records.len(),
{
    if records.len() > 0 {
        lemma_edges_keep(records.drop_last(), selected);
        if spec_has_id(selected, records.last().id@) {
            lemma_candidates_shown(records.last(), selected);
            lemma_push_all_keeps(
                spec_edges(records.drop_last(), selected),
                spec_candidates(records.last(), selected),
                selected,
            );
        }
    }
}

/// The edges of an inspection report never link a record to itself, never
/// repeat a link of one kind between the same two records, and, but for
/// episode memberships, only point at records that are shown as nodes.
pub proof fn lemma_graph_edges_are_distinct_and_closed(
    records: Seq<RecordFrame>,
    request: GraphInspectionRequest,
)
    ensures
        spec_edges_distinct(spec_edges(records, spec_selection(records, request).0)),
        spec_edges_point_at_shown(
            spec_edges(records, spec_selection(records, request).0),
            spec_selection(records, request).0,
        ),
{
    lemma_edges_keep(records, spec_selection(records, request).0);
}

/// An inspection report shows only records that its request admits, at most
/// `max_nodes` of them, and it is marked truncated only when that limit was
/// reached.
pub proof fn lemma_graph_node_limit(records: Seq<RecordFrame>, request: GraphInspectionRequest)
    ensures
        forall|i: int|
            0 <= i < spec_selection(records, request).0.len() ==> spec_includes(
                #[trigger] spec_selection(records, request).0[i],
                request,
            ),
        request.max_nodes is Some ==> spec_selection(records, request).0.len()
            <= request.max_nodes->0,
        spec_selection(records, request).1 ==> request.max_nodes is Some
            && spec_selection(records, request).0.len() == request.max_nodes->0,
    decreases records.len(),
{
    if records.len() > 0 {
        lemma_graph_node_limit(records.drop_last(), request);
        let (sel, t) = spec_selection(records.drop_last(), request);
        let rec = records.last();
        if !(t || !spec_includes(rec, request)) && !(request.max_nodes is Some && sel.len()
            >= request.max_nodes->0) {
            let out = sel.push(rec);
            assert forall|i: int| 0 <= i < out.len() implies spec_includes(#[trigger] out[i], request) by {
                if i < sel.len() {
                    assert(out[i] == sel[i]);
                }
            }
        }
    }
}

} // verus!
