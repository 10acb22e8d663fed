//! Lineage of object instances: edges between records, and an in-memory
//! store whose query walks the edges breadth-first, hop by hop.

use vstd::prelude::*;
use crate::agents::json_copy;
use crate::condition::{json_rendering, json_to_string};
use crate::evals::{json_eq, json_equal};
use crate::primitives::{concat, str_eq, ApiName, Error};
use crate::ports::IdGenerator;
use crate::primitives::json_from_str;
use crate::runtime::LineageKind;
use crate::primitives::json_string;

verus! {

/// An edge between two object instances.
#[derive(Debug)]
pub struct LineageRecord {
    /// Unique id.
    pub id: String,
    /// Source object type.
    pub source_object_type: ApiName,
    /// Source primary key.
    pub source_pk: serde_json::Value,
    /// Target object type.
    pub target_object_type: ApiName,
    /// Target primary key.
    pub target_pk: serde_json::Value,
    /// Kind of edge.
    pub edge_kind: LineageKind,
    /// Actor who caused the write.
    pub actor_user_id: String,
    /// Timestamp.
    pub occurred_at: String,
    /// Pipeline that caused the write, if any.
    pub pipeline: Option<ApiName>,
}

/// A lineage edge as plain values.
pub struct LineageRecordView {
    /// Unique id.
    pub id: Seq<char>,
    /// Source object type.
    pub source_object_type: Seq<char>,
    /// Source primary key.
    pub source_pk: serde_json::Value,
    /// Target object type.
    pub target_object_type: Seq<char>,
    /// Target primary key.
    pub target_pk: serde_json::Value,
    /// Kind of edge.
    pub edge_kind: LineageKind,
    /// Actor.
    pub actor_user_id: Seq<char>,
    /// Timestamp.
    pub occurred_at: Seq<char>,
    /// Pipeline, if any.
    pub pipeline: Option<Seq<char>>,
}

impl View for LineageRecord {
    type V = LineageRecordView;

    open spec fn view(&self) -> LineageRecordView {
        LineageRecordView {
            id: self.id@,
            source_object_type: self.source_object_type@,
            source_pk: self.source_pk,
            target_object_type: self.target_object_type@,
            target_pk: self.target_pk,
            edge_kind: self.edge_kind,
            actor_user_id: self.actor_user_id@,
            occurred_at: self.occurred_at@,
            pipeline: match self.pipeline {
                Some(p) => Some(p@),
                None => None,
            },
        }
    }
}

/// A copy of a lineage edge.
pub fn copy_record(r: &LineageRecord) -> (result: LineageRecord)
    ensures
        result@ == r@,
{
    LineageRecord {
        id: r.id.clone(),
        source_object_type: r.source_object_type.duplicate(),
        source_pk: json_copy(&r.source_pk),
        target_object_type: r.target_object_type.duplicate(),
        target_pk: json_copy(&r.target_pk),
        edge_kind: r.edge_kind,
        actor_user_id: r.actor_user_id.clone(),
        occurred_at: r.occurred_at.clone(),
        pipeline: match &r.pipeline {
            Some(p) => Some(p.duplicate()),
            None => None,
        },
    }
}

/// Parameters of a `Produces` edge.
#[derive(Debug)]
pub struct ProducesEdgeParams {
    /// Record id.
    pub id: String,
    /// Source object type.
    pub source_object_type: ApiName,
    /// Source primary key.
    pub source_pk: serde_json::Value,
    /// Target object type.
    pub target_object_type: ApiName,
    /// Target primary key.
    pub target_pk: serde_json::Value,
    /// Actor user id.
    pub actor_user_id: String,
    /// Timestamp.
    pub occurred_at: String,
    /// Pipeline, if any.
    pub pipeline: Option<ApiName>,
}

/// The edge recording that `source` produced `target`.
pub fn build_produces_edge(params: ProducesEdgeParams) -> (result: LineageRecord)
    ensures
        result == (LineageRecord {
            id: params.id,
            source_object_type: params.source_object_type,
            source_pk: params.source_pk,
            target_object_type: params.target_object_type,
            target_pk: params.target_pk,
            edge_kind: LineageKind::Produces,
            actor_user_id: params.actor_user_id,
            occurred_at: params.occurred_at,
            pipeline: params.pipeline,
        }),
{
    LineageRecord {
        id: params.id,
        source_object_type: params.source_object_type,
        source_pk: params.source_pk,
        target_object_type: params.target_object_type,
        target_pk: params.target_pk,
        edge_kind: LineageKind::Produces,
        actor_user_id: params.actor_user_id,
        occurred_at: params.occurred_at,
        pipeline: params.pipeline,
    }
}

/// Primary key recorded for lineage: the record's, or the text `unknown`.
pub open spec fn lineage_pk(pk: Option<serde_json::Value>) -> serde_json::Value {
    match pk {
        Some(v) => v,
        None => json_string("unknown"@),
    }
}

/// The `Produces` edges written after a mutation of `object_name`: one per
/// declared lineage source, in order, from that source to the written
/// record, both ends under the record's primary key. Each edge gets a fresh
/// `lin` id from `ids`; the generator's error, if it fails to give one.
pub fn mutation_lineage(
    object_name: &ApiName,
    primary_key: &Option<serde_json::Value>,
    sources: &Vec<ApiName>,
    actor_user_id: &str,
    occurred_at: &str,
    ids: &dyn IdGenerator,
) -> (result: Result<Vec<LineageRecord>, Error>)
    ensures
        sources@.len() == 0 ==> (result matches Ok(edges) && edges@.len() == 0),
        result is Err ==> sources@.len() > 0,
        result matches Ok(edges) ==> {
            &&& edges@.len() == sources@.len()
            &&& forall|i: int| 0 <= i < sources@.len() ==> {
                let e = #[trigger] edges@[i];
                &&& e.source_object_type@ == sources@[i]@
                &&& e.source_pk == lineage_pk(*primary_key)
                &&& e.target_object_type@ == object_name@
                &&& e.target_pk == lineage_pk(*primary_key)
                &&& e.edge_kind == LineageKind::Produces
                &&& e.actor_user_id@ == actor_user_id@
                &&& e.occurred_at@ == occurred_at@
                &&& e.pipeline is None
            }
        },
{
    let mut edges: Vec<LineageRecord> = Vec::new();
    let mut i: usize = 0;
    while i < sources.len()
        invariant
            i <= sources@.len(),
            edges@.len() == i,
            forall|j: int| 0 <= j < i ==> {
                let e = #[trigger] edges@[j];
                &&& e.source_object_type@ == sources@[j]@
                &&& e.source_pk == lineage_pk(*primary_key)
                &&& e.target_object_type@ == object_name@
                &&& e.target_pk == lineage_pk(*primary_key)
                &&& e.edge_kind == LineageKind::Produces
                &&& e.actor_user_id@ == actor_user_id@
                &&& e.occurred_at@ == occurred_at@
                &&& e.pipeline is None
            },
        decreases sources@.len() - i,
    {
        let pk = match primary_key {
            Some(v) => json_copy(v),
            None => json_from_str("unknown"),
        };
        let id = match ids.new_id("lin") {
            Ok(id) => id,
            Err(e) => {
                return Err(e);
            },
        };
        let edge = build_produces_edge(ProducesEdgeParams {
            id,
            source_object_type: sources[i].duplicate(),
            source_pk: json_copy(&pk),
            target_object_type: object_name.duplicate(),
            target_pk: pk,
            actor_user_id: actor_user_id.to_owned(),
            occurred_at: occurred_at.to_owned(),
            pipeline: None,
        });
        edges.push(edge);
        i = i + 1;
    }
    Ok(edges)
}

/// The key under which an instance is remembered as visited: its object
/// type, a colon, and its primary key as JSON text.
pub open spec fn node_key(object_type: Seq<char>, pk: serde_json::Value) -> Seq<char> {
    object_type + ":"@ + json_rendering(pk)
}

/// Whether two primary keys compare equal: identical values always do.
pub open spec fn same_pk(a: serde_json::Value, b: serde_json::Value) -> bool {
    a == b || json_equal(a, b)
}

/// Edge `r` leaves the instance.
pub open spec fn from_node(r: LineageRecordView, object_type: Seq<char>, pk: serde_json::Value) -> bool {
    r.source_object_type == object_type && same_pk(r.source_pk, pk)
}

/// Edge `r` arrives at the instance.
pub open spec fn to_node(r: LineageRecordView, object_type: Seq<char>, pk: serde_json::Value) -> bool {
    r.target_object_type == object_type && same_pk(r.target_pk, pk)
}

/// Among the first `m` edges, those touching the instance, and for each
/// the instance at its other end.
pub open spec fn scan(
    records: Seq<LineageRecordView>,
    object_type: Seq<char>,
    pk: serde_json::Value,
    m: int,
) -> (Seq<int>, Seq<(Seq<char>, serde_json::Value)>)
    decreases m,
{
    if m <= 0 {
        (Seq::empty(), Seq::empty())
    } else {
        let (found, next) = scan(records, object_type, pk, m - 1);
        let r = records[m - 1];
        if from_node(r, object_type, pk) {
            (found.push(m - 1), next.push((r.target_object_type, r.target_pk)))
        } else if to_node(r, object_type, pk) {
            (found.push(m - 1), next.push((r.source_object_type, r.source_pk)))
        } else {
            (found, next)
        }
    }
}

/// One hop from the instances of `frontier`, in order, skipping those
/// visited before: the edges found, the instances reached, and the visited
/// keys after the hop.
pub open spec fn hop(
    records: Seq<LineageRecordView>,
    frontier: Seq<(Seq<char>, serde_json::Value)>,
    visited: Set<Seq<char>>,
) -> (Seq<int>, Seq<(Seq<char>, serde_json::Value)>, Set<Seq<char>>)
    decreases frontier.len(),
{
    if frontier.len() == 0 {
        (Seq::empty(), Seq::empty(), visited)
    } else {
        let (found, next, seen) = hop(records, frontier.drop_last(), visited);
        let (object_type, pk) = frontier.last();
        let key = node_key(object_type, pk);
        if seen.contains(key) {
            (found, next, seen)
        } else {
            let (more, reached) = scan(records, object_type, pk, records.len() as int);
            (found + more, next + reached, seen.insert(key))
        }
    }
}

/// Edges found by up to `levels` hops from `frontier`.
pub open spec fn walk(
    records: Seq<LineageRecordView>,
    frontier: Seq<(Seq<char>, serde_json::Value)>,
    visited: Set<Seq<char>>,
    levels: nat,
) -> Seq<int>
    decreases levels,
{
    if levels == 0 || frontier.len() == 0 {
        Seq::empty()
    } else {
        let (found, next, seen) = hop(records, frontier, visited);
        found + walk(records, next, seen, (levels - 1) as nat)
    }
}

/// Views of a list of edges.
pub open spec fn record_views(records: Seq<LineageRecord>) -> Seq<LineageRecordView> {
    records.map_values(|r: LineageRecord| r@)
}

/// The edges that a lineage query returns: those found by walking up to
/// `depth` hops (unbounded when absent) from the instance.
pub open spec fn lineage_of(
    records: Seq<LineageRecordView>,
    object_type: Seq<char>,
    pk: serde_json::Value,
    depth: Option<u32>,
) -> Seq<LineageRecordView> {
    let levels = match depth {
        Some(d) => d,
        None => u32::MAX,
    };
    walk(records, seq![(object_type, pk)], Set::empty(), levels as nat).map_values(|i: int| records[i])
}

/// Walking one more level only adds edges at the end.
pub proof fn lemma_walk_prefix(
    records: Seq<LineageRecordView>,
    frontier: Seq<(Seq<char>, serde_json::Value)>,
    visited: Set<Seq<char>>,
    levels: nat,
)
    ensures
        walk(records, frontier, visited, levels).len() <= walk(records, frontier, visited, levels + 1).len(),
        walk(records, frontier, visited, levels + 1).take(walk(records, frontier, visited, levels).len() as int)
            == walk(records, frontier, visited, levels),
    decreases levels,
{
    if frontier.len() == 0 {
    } else if levels == 0 {
        assert(walk(records, frontier, visited, 0) =~= Seq::<int>::empty());
        assert(walk(records, frontier, visited, 1).take(0) =~= Seq::<int>::empty());
    } else {
        let (found, next, seen) = hop(records, frontier, visited);
        lemma_walk_prefix(records, next, seen, (levels - 1) as nat);
        let short = walk(records, next, seen, (levels - 1) as nat);
        let long = walk(records, next, seen, levels);
        let a = found + long;
        let b = found + short;
        assert(walk(records, frontier, visited, levels) == b);
        assert(walk(records, frontier, visited, levels + 1) == a);
        assert forall|q: int| 0 <= q < b.len() implies a[q] == b[q] by {
            if q >= found.len() {
                assert(long.take(short.len() as int)[q - found.len()] == short[q - found.len()]);
            }
        }
        assert(a.take(b.len() as int) =~= b);
    }
}

/// Edges found by scanning the first `m` edges are among them.
proof fn lemma_scan_in_range(
    records: Seq<LineageRecordView>,
    object_type: Seq<char>,
    pk: serde_json::Value,
    m: int,
)
    ensures
        forall|q: int| 0 <= q < scan(records, object_type, pk, m).0.len() ==> 0 <= #[trigger] scan(
            records,
            object_type,
            pk,
            m,
        ).0[q] < m,
    decreases m,
{
    if m > 0 {
        lemma_scan_in_range(records, object_type, pk, m - 1);
        let (found, next) = scan(records, object_type, pk, m - 1);
        let now = scan(records, object_type, pk, m).0;
        assert forall|q: int| 0 <= q < now.len() implies 0 <= #[trigger] now[q] < m by {
            if q < found.len() {
                assert(found[q] < m - 1);
                assert(now[q] == found[q]);
            }
        }
    }
}

/// Edges found by a hop are among the edges.
proof fn lemma_hop_in_range(
    records: Seq<LineageRecordView>,
    frontier: Seq<(Seq<char>, serde_json::Value)>,
    visited: Set<Seq<char>>,
)
    ensures
        forall|q: int| 0 <= q < hop(records, frontier, visited).0.len() ==> 0 <= #[trigger] hop(
            records,
            frontier,
            visited,
        ).0[q] < records.len(),
    decreases frontier.len(),
{
    if frontier.len() > 0 {
        lemma_hop_in_range(records, frontier.drop_last(), visited);
        let (found, next, seen) = hop(records, frontier.drop_last(), visited);
        let (object_type, pk) = frontier.last();
        lemma_scan_in_range(records, object_type, pk, records.len() as int);
        let more = scan(records, object_type, pk, records.len() as int).0;
        assert forall|q: int| 0 <= q < (found + more).len() implies 0 <= #[trigger] (found + more)[q] < records.len() by {
            if q >= found.len() {
                assert((found + more)[q] == more[q - found.len()]);
            }
        }
    }
}

/// Edges found by a walk are among the edges.
proof fn lemma_walk_in_range(
    records: Seq<LineageRecordView>,
    frontier: Seq<(Seq<char>, serde_json::Value)>,
    visited: Set<Seq<char>>,
    levels: nat,
)
    ensures
        forall|q: int| 0 <= q < walk(records, frontier, visited, levels).len() ==> 0 <= #[trigger] walk(
            records,
            frontier,
            visited,
            levels,
        )[q] < records.len(),
    decreases levels,
{
    if levels > 0 && frontier.len() > 0 {
        lemma_hop_in_range(records, frontier, visited);
        let (found, next, seen) = hop(records, frontier, visited);
        lemma_walk_in_range(records, next, seen, (levels - 1) as nat);
        let rest = walk(records, next, seen, (levels - 1) as nat);
        assert forall|q: int| 0 <= q < (found + rest).len() implies 0 <= #[trigger] (found + rest)[q] < records.len() by {
            if q >= found.len() {
                assert((found + rest)[q] == rest[q - found.len()]);
            }
        }
    }
}

/// A lineage query finds nothing at depth zero, and a deeper query finds
/// what a shallower one finds, in the same order, followed by more.
pub proof fn lemma_lineage_depth_monotone(
    records: Seq<LineageRecordView>,
    object_type: Seq<char>,
    pk: serde_json::Value,
    depth: u32,
)
    requires
        depth < u32::MAX,
    ensures
        lineage_of(records, object_type, pk, Some(0)).len() == 0,
        lineage_of(records, object_type, pk, Some((depth + 1) as u32)).take(
            lineage_of(records, object_type, pk, Some(depth)).len() as int,
        ) == lineage_of(records, object_type, pk, Some(depth)),
{
    let start: Seq<(Seq<char>, serde_json::Value)> = seq![(object_type, pk)];
    lemma_walk_prefix(records, start, Set::empty(), depth as nat);
    let short = walk(records, start, Set::empty(), depth as nat);
    let long = walk(records, start, Set::empty(), (depth + 1) as nat);
    let lv = long.map_values(|i: int| records[i]);
    let sv = short.map_values(|i: int| records[i]);
    assert forall|q: int| 0 <= q < sv.len() implies lv[q] == sv[q] by {
        assert(long.take(short.len() as int)[q] == short[q]);
    }
    assert(lv.take(sv.len() as int) =~= sv);
    assert(walk(records, start, Set::empty(), 0) =~= Seq::<int>::empty());
}

/// Every edge a lineage query returns is one of the recorded edges.
pub proof fn lemma_lineage_edges_recorded(
    records: Seq<LineageRecordView>,
    object_type: Seq<char>,
    pk: serde_json::Value,
    depth: Option<u32>,
    e: LineageRecordView,
)
    requires
        lineage_of(records, object_type, pk, depth).contains(e),
    ensures
        records.contains(e),
{
    let levels = match depth {
        Some(d) => d,
        None => u32::MAX,
    };
    let start: Seq<(Seq<char>, serde_json::Value)> = seq![(object_type, pk)];
    let found = walk(records, start, Set::empty(), levels as nat);
    lemma_walk_in_range(records, start, Set::empty(), levels as nat);
    let views = found.map_values(|i: int| records[i]);
    let j = choose|j: int| 0 <= j < views.len() && #[trigger] views[j] == e;
    assert(0 <= found[j] < records.len());
    assert(records[found[j]] == e);
}

/// An edge, once recorded, is found by a one-hop query from its source and
/// by one from its target: the store never loses an edge.
pub proof fn lemma_recorded_edge_found(records: Seq<LineageRecordView>, e: LineageRecordView)
    ensures
        lineage_of(records.push(e), e.source_object_type, e.source_pk, Some(1)).contains(e),
        lineage_of(records.push(e), e.target_object_type, e.target_pk, Some(1)).contains(e),
{
    let rs = records.push(e);
    lemma_found_by_hop(rs, e.source_object_type, e.source_pk);
    lemma_found_by_hop(rs, e.target_object_type, e.target_pk);
}

/// A one-hop query finds the last edge when it touches the instance.
proof fn lemma_found_by_hop(rs: Seq<LineageRecordView>, object_type: Seq<char>, pk: serde_json::Value)
    requires
        rs.len() > 0,
        from_node(rs.last(), object_type, pk) || to_node(rs.last(), object_type, pk),
    ensures
        lineage_of(rs, object_type, pk, Some(1)).contains(rs.last()),
{
    let start: Seq<(Seq<char>, serde_json::Value)> = seq![(object_type, pk)];
    let m = rs.len() as int;
    let (found, next) = scan(rs, object_type, pk, m);
    assert(found.last() == m - 1);
    assert(start.drop_last() =~= Seq::<(Seq<char>, serde_json::Value)>::empty());
    let (f0, n0, s0) = hop(rs, start.drop_last(), Set::empty());
    assert(f0 =~= Seq::<int>::empty());
    let (h, hn, hs) = hop(rs, start, Set::empty());
    assert(h =~= found);
    let w = walk(rs, start, Set::empty(), 1);
    assert(walk(rs, hn, hs, 0) =~= Seq::<int>::empty());
    assert(w =~= found);
    let views = w.map_values(|i: int| rs[i]);
    assert(views[found.len() - 1] == rs[m - 1]);
}

/// Lineage edges kept in memory.
pub struct MemoryLineageStore {
    records: Vec<LineageRecord>,
}

impl MemoryLineageStore {
    /// The edges recorded, in order.
    pub closed spec fn edges(&self) -> Seq<LineageRecordView> {
        record_views(self.records@)
    }

    /// An empty store.
    pub fn new() -> (result: MemoryLineageStore)
        ensures
            result.edges().len() == 0,
    {
        MemoryLineageStore { records: Vec::new() }
    }

    /// Record an edge.
    pub fn record(&mut self, edge: LineageRecord)
        ensures
            final(self).edges() == old(self).edges().push(edge@),
    {
        self.records.push(edge);
        proof {
            assert(record_views(self.records@) =~= record_views(old(self).records@).push(edge@));
        }
    }

    /// The key of an instance, computed.
    fn key_of(object_type: &str, pk: &serde_json::Value) -> (result: String)
        ensures
            result@ == node_key(object_type@, *pk),
    {
        let mut key = concat(object_type, ":");
        let text = json_to_string(pk);
        key.append(text.as_str());
        key
    }

    /// Edges touching the instance, and the other end of each.
    fn scan_records(&self, object_type: &str, pk: &serde_json::Value) -> (result: (Vec<usize>, Vec<(String, serde_json::Value)>))
        ensures
            ({
                let (found, next) = scan(self.edges(), object_type@, *pk, self.edges().len() as int);
                &&& result.0@.map_values(|i: usize| i as int) == found
                &&& result.1@.map_values(|n: (String, serde_json::Value)| (n.0@, n.1)) == next
            }),
            forall|q: int| 0 <= q < result.0@.len() ==> #[trigger] result.0@[q] < self.records@.len(),
    {
        let ghost rs = self.edges();
        let mut found: Vec<usize> = Vec::new();
        let mut next: Vec<(String, serde_json::Value)> = Vec::new();
        let mut i: usize = 0;
        while i < self.records.len()
            invariant
                i <= self.records@.len(),
                rs == self.edges(),
                rs.len() == self.records@.len(),
                ({
                    let (f, n) = scan(rs, object_type@, *pk, i as int);
                    &&& found@.map_values(|k: usize| k as int) == f
                    &&& next@.map_values(|n: (String, serde_json::Value)| (n.0@, n.1)) == n
                }),
                forall|q: int| 0 <= q < found@.len() ==> #[trigger] found@[q] < i,
            decreases self.records@.len() - i,
        {
            let r = &self.records[i];
            let ghost f0 = found@;
            let ghost n0 = next@;
            let from = str_eq(r.source_object_type.as_str(), object_type) && json_eq(&r.source_pk, pk);
            let to = str_eq(r.target_object_type.as_str(), object_type) && json_eq(&r.target_pk, pk);
            if from {
                found.push(i);
                next.push((r.target_object_type.as_str().to_owned(), json_copy(&r.target_pk)));
            } else if to {
                found.push(i);
                next.push((r.source_object_type.as_str().to_owned(), json_copy(&r.source_pk)));
            }
            proof {
                assert(rs[i as int] == r@);
                assert(found@.map_values(|k: usize| k as int) =~= if from || to {
                    f0.map_values(|k: usize| k as int).push(i as int)
                } else {
                    f0.map_values(|k: usize| k as int)
                });
                assert(next@.map_values(|n: (String, serde_json::Value)| (n.0@, n.1)) =~= if from {
                    n0.map_values(|n: (String, serde_json::Value)| (n.0@, n.1)).push((r.target_object_type@, r.target_pk))
                } else if to {
                    n0.map_values(|n: (String, serde_json::Value)| (n.0@, n.1)).push((r.source_object_type@, r.source_pk))
                } else {
                    n0.map_values(|n: (String, serde_json::Value)| (n.0@, n.1))
                });
            }
            i = i + 1;
        }
        (found, next)
    }

    /// Whether `key` was visited.
    fn seen(visited: &Vec<String>, key: &str) -> (result: bool)
        ensures
            result == visited@.map_values(|s: String| s@).to_set().contains(key@),
    {
        let ghost vs = visited@.map_values(|s: String| s@);
        let mut i: usize = 0;
        while i < visited.len()
            invariant
                i <= visited@.len(),
                vs == visited@.map_values(|s: String| s@),
                forall|j: int| 0 <= j < i ==> vs[j] != key@,
            decreases visited@.len() - i,
        {
            if str_eq(visited[i].as_str(), key) {
                proof {
                    assert(vs[i as int] == key@);
                    assert(vs.to_set().contains(key@));
                }
                return true;
            }
            i = i + 1;
        }
        proof {
            if vs.to_set().contains(key@) {
                let j = choose|j: int| 0 <= j < vs.len() && vs[j] == key@;
                assert(vs[j] != key@);
            }
        }
        false
    }

    /// Edges reachable from the instance `object_type`/`pk` within `depth`
    /// hops (unbounded when absent), hop by hop; an edge reached from
    /// several instances appears once per instance.
    pub fn query_lineage(&self, object_type: &ApiName, pk: &serde_json::Value, depth: Option<u32>) -> (result: Vec<LineageRecord>)
        ensures
            record_views(result@) == lineage_of(self.edges(), object_type@, *pk, depth),
    {
        let max_depth = match depth {
            Some(d) => d,
            None => u32::MAX,
        };
        let ghost rs = self.edges();
        let ghost start: Seq<(Seq<char>, serde_json::Value)> = seq![(object_type@, *pk)];
        let ghost target = walk(rs, start, Set::empty(), max_depth as nat);
        let mut found: Vec<usize> = Vec::new();
        let mut frontier: Vec<(String, serde_json::Value)> = Vec::new();
        frontier.push((object_type.as_str().to_owned(), json_copy(pk)));
        let mut visited: Vec<String> = Vec::new();
        let mut level: u32 = 0;
        proof {
            assert(frontier@.map_values(|n: (String, serde_json::Value)| (n.0@, n.1)) =~= start);
            assert(visited@.map_values(|s: String| s@).to_set() =~= Set::<Seq<char>>::empty());
        }
        while level < max_depth && frontier.len() > 0
            invariant
                level <= max_depth,
                rs == self.edges(),
                target == walk(rs, start, Set::empty(), max_depth as nat),
                found@.map_values(|k: usize| k as int) + walk(
                    rs,
                    frontier@.map_values(|n: (String, serde_json::Value)| (n.0@, n.1)),
                    visited@.map_values(|s: String| s@).to_set(),
                    (max_depth - level) as nat,
                ) == target,
                forall|q: int| 0 <= q < found@.len() ==> #[trigger] found@[q] < self.records@.len(),
            decreases max_depth - level,
        {
            let ghost fr = frontier@.map_values(|n: (String, serde_json::Value)| (n.0@, n.1));
            let ghost vis = visited@.map_values(|s: String| s@).to_set();
            let ghost found0 = found@.map_values(|k: usize| k as int);
            let mut next: Vec<(String, serde_json::Value)> = Vec::new();
            let mut k: usize = 0;
            let ghost base = found@.map_values(|k: usize| k as int);
            while k < frontier.len()
                invariant
                    k <= frontier@.len(),
                    rs == self.edges(),
                    fr == frontier@.map_values(|n: (String, serde_json::Value)| (n.0@, n.1)),
                    ({
                        let (f, n, s) = hop(rs, fr.take(k as int), vis);
                        &&& found@.map_values(|x: usize| x as int) == base + f
                        &&& next@.map_values(|n: (String, serde_json::Value)| (n.0@, n.1)) == n
                        &&& visited@.map_values(|s: String| s@).to_set() == s
                    }),
                    forall|q: int| 0 <= q < found@.len() ==> #[trigger] found@[q] < self.records@.len(),
                decreases frontier@.len() - k,
            {
                proof {
                    assert(fr.take(k + 1).drop_last() =~= fr.take(k as int));
                    assert(fr.take(k + 1).last() == fr[k as int]);
                }
                let key = Self::key_of(frontier[k].0.as_str(), &frontier[k].1);
                if !Self::seen(&visited, key.as_str()) {
                    let (more, reached) = self.scan_records(frontier[k].0.as_str(), &frontier[k].1);
                    let ghost f0 = found@;
                    let ghost n0 = next@;
                    let ghost v0 = visited@;
                    let mut more = more;
                    let mut reached = reached;
                    let ghost more_v = more@;
                    let ghost reached_v = reached@;
                    found.append(&mut more);
                    next.append(&mut reached);
                    visited.push(key);
                    proof {
                        assert(found@.map_values(|x: usize| x as int) =~= f0.map_values(|x: usize| x as int)
                            + more_v.map_values(|x: usize| x as int));
                        assert(next@.map_values(|n: (String, serde_json::Value)| (n.0@, n.1)) =~= n0.map_values(
                            |n: (String, serde_json::Value)| (n.0@, n.1),
                        ) + reached_v.map_values(|n: (String, serde_json::Value)| (n.0@, n.1)));
                        assert(visited@.map_values(|s: String| s@) =~= v0.map_values(|s: String| s@).push(key@));
                        v0.map_values(|s: String| s@).lemma_push_to_set_commute(key@);
                    }
                }
                k = k + 1;
            }
            proof {
                assert(fr.take(k as int) =~= fr);
                let (f, n, sn) = hop(rs, fr, vis);
                assert(found@.map_values(|x: usize| x as int) + walk(rs, n, sn, (max_depth - level - 1) as nat)
                    =~= found0 + walk(rs, fr, vis, (max_depth - level) as nat));
            }
            frontier = next;
            level = level + 1;
        }
        proof {
            if level < max_depth {
                assert(frontier@.map_values(|n: (String, serde_json::Value)| (n.0@, n.1)).len() == 0);
            }
            assert(found@.map_values(|k: usize| k as int) =~= target);
        }
        let mut out: Vec<LineageRecord> = Vec::new();
        let mut j: usize = 0;
        while j < found.len()
            invariant
                j <= found@.len(),
                rs == self.edges(),
                rs.len() == self.records@.len(),
                found@.map_values(|k: usize| k as int) == target,
                forall|q: int| 0 <= q < found@.len() ==> #[trigger] found@[q] < self.records@.len(),
                record_views(out@) == target.take(j as int).map_values(|i: int| rs[i]),
            decreases found@.len() - j,
        {
            let ghost before = out@;
            out.push(copy_record(&self.records[found[j]]));
            proof {
                let idx = found@[j as int] as int;
                assert(target[j as int] == idx);
                assert(rs[idx] == self.records@[idx]@);
                assert(record_views(out@) =~= record_views(before).push(self.records@[idx]@));
                assert(target.take(j + 1).map_values(|i: int| rs[i]) =~= target.take(j as int).map_values(|i: int| rs[i]).push(rs[idx]));
            }
            j = j + 1;
        }
        proof {
            assert(target.take(j as int) =~= target);
        }
        out
    }
}

} // verus!
