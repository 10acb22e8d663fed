//! Transform pipelines: steps ordered by the data they read and write, and a
//! queue of pending steps that decision steps may change while a run goes on.

use vstd::prelude::*;
use crate::primitives::{ApiName, str_eq};

verus! {

/// What a pipeline step does.
#[derive(Debug, Clone, Copy, PartialEq, Eq)]
pub enum StepKind {
    /// Copy records from the source object type into the target.
    Transform,
    /// Evaluate an expression that may change the pending steps.
    Decision,
    /// Start of a parallel section (run in order for now).
    Fork,
    /// End of a parallel section (run in order for now).
    Join,
}

/// What to do when a transform step fails.
#[derive(Debug, Clone, PartialEq, Eq)]
pub enum ErrorStrategy {
    /// Stop the whole run.
    Abort,
    /// Record the failure and go on.
    Skip,
    /// Run the named pending step in its place.
    Fallback {
        /// The step to run instead.
        step: ApiName,
    },
}

/// One step of a transform pipeline.
#[derive(Debug, Clone)]
pub struct TransformStep {
    /// Name of the step.
    pub api_name: ApiName,
    /// Object type read by the step.
    pub source: ApiName,
    /// Object type written by the step.
    pub target: ApiName,
    /// What the step does; a transform when absent.
    pub kind: Option<StepKind>,
    /// Condition under which the step runs.
    pub when: Option<String>,
    /// Expression of a decision step.
    pub expression: Option<String>,
    /// Expression naming the source at run time, in place of `source`.
    pub dynamic_source: Option<String>,
    /// What to do when the step fails.
    pub on_error: Option<ErrorStrategy>,
}

/// Step `j` writes the object type that step `i` reads, so `j` runs first.
pub open spec fn feeds(steps: Seq<TransformStep>, j: int, i: int) -> bool {
    j != i && steps[j].target@ == steps[i].source@
}

/// `order` lists the positions of `steps` so that its first `reached` entries
/// run every step after all the steps that feed it, and the rest are the steps
/// that wait on a cycle, in their original order.
pub open spec fn is_dependency_order(steps: Seq<TransformStep>, order: Seq<usize>, reached: int) -> bool {
    let n = steps.len();
    &&& order.len() == n
    &&& order.no_duplicates()
    &&& forall|p: int| 0 <= p < n ==> #[trigger] order[p] < n
    &&& 0 <= reached <= n
    &&& forall|p: int, q: int|
        0 <= p < reached && 0 <= q < n && #[trigger] feeds(steps, order[q] as int, order[p] as int) ==> q < p
    &&& forall|p: int| reached <= p < n ==> #[trigger] waits_on_tail(steps, order, reached, p)
    &&& forall|p: int, q: int| reached <= p < q < n ==> #[trigger] order[p] < #[trigger] order[q]
    &&& forall|p: int, q: int| 0 <= p < q < reached ==> #[trigger] ready_before(steps, order, reached, order[p] as int, order[q] as int)
}

/// Position in `order`, below `upto`, of the last step that feeds step `x`;
/// -1 when none does. A step becomes ready once that step has run.
pub open spec fn release(steps: Seq<TransformStep>, order: Seq<usize>, x: int, upto: int) -> int
    decreases upto,
{
    if upto <= 0 {
        -1
    } else if feeds(steps, order[upto - 1] as int, x) {
        upto - 1
    } else {
        release(steps, order, x, upto - 1)
    }
}

/// Step `x` is taken before step `y` by a first-in first-out queue of ready
/// steps: it became ready earlier, or at the same time and comes first in
/// the input. So independent steps keep their input order.
pub open spec fn ready_before(steps: Seq<TransformStep>, order: Seq<usize>, upto: int, x: int, y: int) -> bool {
    let rx = release(steps, order, x, upto);
    let ry = release(steps, order, y, upto);
    rx < ry || (rx == ry && x < y)
}

proof fn lemma_release_bounds(steps: Seq<TransformStep>, order: Seq<usize>, x: int, upto: int)
    requires
        0 <= upto,
    ensures
        -1 <= release(steps, order, x, upto) < upto,
    decreases upto,
{
    if upto > 0 {
        lemma_release_bounds(steps, order, x, upto - 1);
    }
}

proof fn lemma_release_same(steps: Seq<TransformStep>, a: Seq<usize>, b: Seq<usize>, x: int, upto: int)
    requires
        forall|p: int| 0 <= p < upto ==> a[p] == b[p],
    ensures
        release(steps, a, x, upto) == release(steps, b, x, upto),
    decreases upto,
{
    if upto > 0 {
        lemma_release_same(steps, a, b, x, upto - 1);
    }
}

/// A step that no step at positions `lo..upto` feeds has the same release
/// at `upto` as at `lo`.
proof fn lemma_release_skip(steps: Seq<TransformStep>, order: Seq<usize>, x: int, lo: int, upto: int)
    requires
        0 <= lo <= upto,
        forall|p: int| lo <= p < upto ==> !feeds(steps, #[trigger] order[p] as int, x),
    ensures
        release(steps, order, x, upto) == release(steps, order, x, lo),
    decreases upto - lo,
{
    if lo < upto {
        lemma_release_skip(steps, order, x, lo, upto - 1);
    }
}

/// Some step at or after `reached` in `order` feeds the step at `p`.
pub open spec fn waits_on_tail(steps: Seq<TransformStep>, order: Seq<usize>, reached: int, p: int) -> bool {
    exists|q: int| reached <= q < steps.len() && #[trigger] feeds(steps, order[q] as int, order[p] as int)
}

/// Number of steps below `m` that feed step `i` and are not done, a step `j`
/// being done when `pos[j] < head`.
spec fn waiting(steps: Seq<TransformStep>, pos: Seq<usize>, head: int, i: int, m: int) -> nat
    decreases m,
{
    if m <= 0 {
        0
    } else {
        waiting(steps, pos, head, i, m - 1) + if feeds(steps, m - 1, i) && !(pos[m - 1] < head) {
            1nat
        } else {
            0nat
        }
    }
}

proof fn lemma_waiting_same(
    steps: Seq<TransformStep>,
    p1: Seq<usize>,
    p2: Seq<usize>,
    head: int,
    i: int,
    m: int,
)
    requires
        forall|j: int| 0 <= j < m ==> (p1[j] < head) == (p2[j] < head),
    ensures
        waiting(steps, p1, head, i, m) == waiting(steps, p2, head, i, m),
    decreases m,
{
    if m > 0 {
        lemma_waiting_same(steps, p1, p2, head, i, m - 1);
    }
}

proof fn lemma_waiting_step(steps: Seq<TransformStep>, pos: Seq<usize>, head: int, x: int, i: int, m: int)
    requires
        0 <= x,
        pos[x] == head,
        forall|j: int| 0 <= j < m && j != x ==> pos[j] != head,
    ensures
        waiting(steps, pos, head + 1, i, m) + (if feeds(steps, x, i) && x < m { 1int } else { 0int })
            == waiting(steps, pos, head, i, m),
    decreases m,
{
    if m > 0 {
        lemma_waiting_step(steps, pos, head, x, i, m - 1);
    }
}

proof fn lemma_waiting_zero(steps: Seq<TransformStep>, pos: Seq<usize>, head: int, i: int, m: int)
    ensures
        waiting(steps, pos, head, i, m) == 0 <==> forall|j: int|
            0 <= j < m && #[trigger] feeds(steps, j, i) ==> pos[j] < head,
    decreases m,
{
    if m > 0 {
        lemma_waiting_zero(steps, pos, head, i, m - 1);
        if waiting(steps, pos, head, i, m) == 0 {
            assert forall|j: int| 0 <= j < m && #[trigger] feeds(steps, j, i) implies pos[j] < head by {
                if j < m - 1 {
                }
            }
        }
    }
}

/// A sequence of distinct positions below `n` that holds every position
/// below `n` has length `n`.
proof fn lemma_permutation_len(s: Seq<usize>, n: int)
    requires
        0 <= n <= usize::MAX,
        s.no_duplicates(),
        forall|p: int| 0 <= p < s.len() ==> #[trigger] s[p] < n,
        forall|i: int| 0 <= i < n ==> #[trigger] s.contains(i as usize),
    ensures
        s.len() == n,
{
    let t = s.map_values(|x: usize| x as int);
    assert(t.no_duplicates()) by {
        assert forall|a: int, b: int| 0 <= a < b < t.len() implies t[a] != t[b] by {
            assert(s[a] != s[b]);
        }
    }
    assert(t.to_set() =~= vstd::set_lib::set_int_range(0, n)) by {
        assert forall|x: int| t.to_set().contains(x) implies 0 <= x < n by {
            let p = choose|p: int| 0 <= p < t.len() && t[p] == x;
            assert(s[p] < n);
        }
        assert forall|x: int| 0 <= x < n implies t.to_set().contains(x) by {
            assert(s.contains(x as usize));
            let p = choose|p: int| 0 <= p < s.len() && s[p] == x as usize;
            assert(t[p] == x);
        }
    }
    t.unique_seq_to_set();
    vstd::set_lib::lemma_int_range(0, n);
}

/// A sequence of distinct positions below `n` is at most `n` long.
proof fn lemma_distinct_len(s: Seq<usize>, n: int)
    requires
        0 <= n,
        s.no_duplicates(),
        forall|p: int| 0 <= p < s.len() ==> #[trigger] s[p] < n,
    ensures
        s.len() <= n,
{
    let t = s.map_values(|x: usize| x as int);
    assert(t.no_duplicates()) by {
        assert forall|a: int, b: int| 0 <= a < b < t.len() implies t[a] != t[b] by {
            assert(s[a] != s[b]);
        }
    }
    assert(t.to_set().subset_of(vstd::set_lib::set_int_range(0, n))) by {
        assert forall|x: int| t.to_set().contains(x) implies 0 <= x < n by {
            let p = choose|p: int| 0 <= p < t.len() && t[p] == x;
            assert(s[p] < n);
        }
    }
    t.unique_seq_to_set();
    vstd::set_lib::lemma_int_range(0, n);
    vstd::set_lib::lemma_len_subset(t.to_set(), vstd::set_lib::set_int_range(0, n));
}

/// Whether step `j` feeds step `i`.
fn feeds_at(steps: &Vec<TransformStep>, j: usize, i: usize) -> (result: bool)
    requires
        j < steps@.len(),
        i < steps@.len(),
    ensures
        result == feeds(steps@, j as int, i as int),
{
    j != i && str_eq(steps[j].target.as_str(), steps[i].source.as_str())
}

/// For each step, the number of steps that feed it.
fn feeder_counts(steps: &Vec<TransformStep>, pos: &Vec<usize>) -> (counts: Vec<usize>)
    requires
        pos@.len() == steps@.len(),
    ensures
        counts@.len() == steps@.len(),
        forall|i: int| 0 <= i < steps@.len() ==> #[trigger] counts@[i] == waiting(steps@, pos@, 0, i, steps@.len() as int),
{
    let n = steps.len();
    let mut counts: Vec<usize> = Vec::new();
    let mut i: usize = 0;
    while i < n
        invariant
            n == steps@.len(),
            pos@.len() == n,
            i <= n,
            counts@.len() == i,
            forall|k: int| 0 <= k < i ==> #[trigger] counts@[k] == waiting(steps@, pos@, 0, k, n as int),
        decreases n - i,
    {
        let mut count: usize = 0;
        let mut j: usize = 0;
        while j < n
            invariant
                n == steps@.len(),
                pos@.len() == n,
                i < n,
                j <= n,
                count <= j,
                count == waiting(steps@, pos@, 0, i as int, j as int),
            decreases n - j,
        {
            if feeds_at(steps, j, i) {
                count = count + 1;
            }
            j = j + 1;
        }
        counts.push(count);
        i = i + 1;
    }
    counts
}

/// The positions of `steps` in dependency order, with the number of steps
/// that could be ordered; steps that wait on a cycle come last, in their
/// original order.
pub fn topo_order(steps: &Vec<TransformStep>) -> (result: (Vec<usize>, usize))
    ensures
        is_dependency_order(steps@, result.0@, result.1 as int),
{
    let n = steps.len();
    let mut pos: Vec<usize> = Vec::new();
    while pos.len() < n
        invariant
            n == steps@.len(),
            pos@.len() <= n,
            forall|k: int| 0 <= k < pos@.len() ==> #[trigger] pos@[k] == n,
        decreases n - pos@.len(),
    {
        pos.push(n);
    }
    let mut in_degree = feeder_counts(steps, &pos);
    let mut queue: Vec<usize> = Vec::new();
    let mut i: usize = 0;
    while i < n
        invariant
            n == steps@.len(),
            i <= n,
            pos@.len() == n,
            in_degree@.len() == n,
            queue@.len() <= i,
            forall|p: int| 0 <= p < queue@.len() ==> #[trigger] queue@[p] < i && pos@[queue@[p] as int] == p,
            forall|k: int| 0 <= k < n ==> #[trigger] pos@[k] < queue@.len() ==> queue@[pos@[k] as int] == k,
            forall|k: int| 0 <= k < n ==> #[trigger] pos@[k] >= queue@.len() ==> pos@[k] == n,
            forall|k: int| i <= k < n ==> #[trigger] pos@[k] == n,
            forall|k: int| 0 <= k < i ==> (#[trigger] in_degree@[k] == 0 <==> pos@[k] < queue@.len()),
            forall|k: int| 0 <= k < n ==> #[trigger] in_degree@[k] == waiting(steps@, pos@, 0, k, n as int),
            forall|p: int, j: int| 0 <= p < queue@.len() && 0 <= j < n ==> !#[trigger] feeds(steps@, j, #[trigger] queue@[p] as int),
            forall|p: int, t: int| 0 <= p < t < queue@.len() ==> #[trigger] queue@[p] < #[trigger] queue@[t],
        decreases n - i,
    {
        if in_degree[i] == 0 {
            let ghost old_pos = pos@;
            pos.set(i, queue.len());
            queue.push(i);
            proof {
                assert forall|k: int| 0 <= k < n implies #[trigger] in_degree@[k] == waiting(steps@, pos@, 0, k, n as int) by {
                    lemma_waiting_same(steps@, old_pos, pos@, 0, k, n as int);
                }
                lemma_waiting_zero(steps@, pos@, 0, i as int, n as int);
            }
        }
        i = i + 1;
    }
    let mut head: usize = 0;
    assert forall|p: int, t: int| 0 <= p < t < queue@.len() implies #[trigger] ready_before(
        steps@,
        queue@,
        0,
        queue@[p] as int,
        queue@[t] as int,
    ) by {
        assert(queue@[p] < queue@[t]);
    }
    while head < queue.len()
        invariant
            n == steps@.len(),
            head <= queue@.len() <= n,
            pos@.len() == n,
            in_degree@.len() == n,
            forall|p: int| 0 <= p < queue@.len() ==> #[trigger] queue@[p] < n && pos@[queue@[p] as int] == p,
            forall|k: int| 0 <= k < n ==> #[trigger] pos@[k] < queue@.len() ==> queue@[pos@[k] as int] == k,
            forall|k: int| 0 <= k < n ==> #[trigger] pos@[k] >= queue@.len() ==> pos@[k] == n,
            forall|k: int| 0 <= k < n ==> (#[trigger] in_degree@[k] == 0 <==> pos@[k] < queue@.len()),
            forall|k: int| 0 <= k < n ==> #[trigger] in_degree@[k] == waiting(steps@, pos@, head as int, k, n as int),
            forall|p: int, j: int| 0 <= p < queue@.len() && 0 <= j < n && #[trigger] feeds(steps@, j, #[trigger] queue@[p] as int) ==> pos@[j] < p,
            forall|p: int, t: int| 0 <= p < t < queue@.len() ==> #[trigger] ready_before(
                steps@,
                queue@,
                head as int,
                queue@[p] as int,
                queue@[t] as int,
            ),
        decreases n - head,
    {
        let idx = queue[head];
        head = head + 1;
        let ghost pos0 = pos@;
        let ghost queue0 = queue@;
        let ghost h = head as int;
        proof {
            assert forall|j: int| 0 <= j < n && j != idx implies pos0[j] != h - 1 by {
                if pos0[j] == h - 1 {
                    assert(queue0[h - 1] == j);
                }
            }
            assert forall|p: int| 0 <= p < queue0.len() implies !feeds(steps@, idx as int, #[trigger] queue0[p] as int) by {
                let x = queue0[p] as int;
                assert(pos0[x] == p);
                assert(in_degree@[x] == 0);
                lemma_waiting_zero(steps@, pos0, h - 1, x, n as int);
            }
        }
        let mut dep: usize = 0;
        while dep < n
            invariant
                n == steps@.len(),
                1 <= h <= queue0.len() <= queue@.len() <= n,
                idx < n,
                pos0.len() == n,
                pos0[idx as int] == h - 1,
                queue0[h - 1] == idx,
                forall|j: int| 0 <= j < n && j != idx ==> pos0[j] != h - 1,
                forall|k: int| 0 <= k < n ==> #[trigger] pos0[k] < queue0.len() ==> queue0[pos0[k] as int] == k,
                forall|k: int| 0 <= k < n ==> #[trigger] pos0[k] >= queue0.len() ==> pos0[k] == n,
                dep <= n,
                pos@.len() == n,
                in_degree@.len() == n,
                forall|p: int| 0 <= p < queue0.len() ==> #[trigger] queue@[p] == queue0[p],
                forall|p: int| 0 <= p < queue@.len() ==> #[trigger] queue@[p] < n && pos@[queue@[p] as int] == p,
                forall|k: int| 0 <= k < n ==> #[trigger] pos@[k] < queue@.len() ==> queue@[pos@[k] as int] == k,
                forall|k: int| 0 <= k < n ==> #[trigger] pos@[k] >= queue@.len() ==> pos@[k] == n,
                forall|k: int| 0 <= k < n ==> (#[trigger] pos@[k] < h) == (pos0[k] < h),
                forall|k: int| dep <= k < n ==> #[trigger] pos@[k] == pos0[k],
                forall|k: int| 0 <= k < n ==> (#[trigger] in_degree@[k] == 0 <==> pos@[k] < queue@.len()),
                forall|k: int| 0 <= k < dep ==> #[trigger] in_degree@[k] == waiting(steps@, pos0, h, k, n as int),
                forall|k: int| dep <= k < n ==> #[trigger] in_degree@[k] == waiting(steps@, pos0, h - 1, k, n as int),
                forall|p: int, j: int| 0 <= p < queue@.len() && 0 <= j < n && #[trigger] feeds(steps@, j, #[trigger] queue@[p] as int) ==> pos@[j] < p,
                forall|p: int| 0 <= p < queue0.len() ==> !feeds(steps@, idx as int, #[trigger] queue0[p] as int),
                forall|p: int| queue0.len() <= p < queue@.len() ==> #[trigger] queue@[p] < dep && feeds(steps@, idx as int, queue@[p] as int),
                forall|p: int, t: int| queue0.len() <= p < t < queue@.len() ==> #[trigger] queue@[p] < #[trigger] queue@[t],
                forall|p: int, t: int| 0 <= p < t < queue0.len() ==> #[trigger] ready_before(
                    steps@,
                    queue0,
                    h - 1,
                    queue0[p] as int,
                    queue0[t] as int,
                ),
            decreases n - dep,
        {
            proof {
                lemma_waiting_step(steps@, pos0, h - 1, idx as int, dep as int, n as int);
            }
            if feeds_at(steps, idx, dep) {
                let d = in_degree[dep] - 1;
                in_degree.set(dep, d);
                if d == 0 {
                    let ghost pos1 = pos@;
                    let ghost queue1 = queue@;
                    proof {
                        lemma_waiting_zero(steps@, pos0, h, dep as int, n as int);
                        assert(!queue1.contains(dep)) by {
                            if queue1.contains(dep) {
                                let p = choose|p: int| 0 <= p < queue1.len() && queue1[p] == dep;
                                assert(pos1[queue1[p] as int] == p);
                            }
                        }
                        assert(queue1.push(dep).no_duplicates()) by {
                            assert forall|a: int, b: int| 0 <= a < b < queue1.len() + 1 implies queue1.push(dep)[a] != queue1.push(dep)[b] by {
                                if b < queue1.len() {
                                    assert(pos1[queue1[a] as int] == a);
                                    assert(pos1[queue1[b] as int] == b);
                                } else {
                                    assert(queue1[a] != dep);
                                }
                            }
                        }
                        lemma_distinct_len(queue1.push(dep), n as int);
                    }
                    pos.set(dep, queue.len());
                    queue.push(dep);
                }
            }
            dep = dep + 1;
        }
        proof {
            assert forall|k: int| 0 <= k < n implies #[trigger] in_degree@[k] == waiting(steps@, pos@, head as int, k, n as int) by {
                lemma_waiting_same(steps@, pos0, pos@, h, k, n as int);
            }
            let q = queue@;
            let m = queue0.len() as int;
            assert forall|p: int| 0 <= p < h implies q[p] == queue0[p] by {}
            assert forall|p: int, t: int| 0 <= p < t < q.len() implies #[trigger] ready_before(
                steps@,
                q,
                h,
                q[p] as int,
                q[t] as int,
            ) by {
                let x = q[p] as int;
                let y = q[t] as int;
                if p < m {
                    assert(q[p] == queue0[p]);
                    lemma_release_same(steps@, q, queue0, x, h);
                    assert forall|r: int| h - 1 <= r < h implies !feeds(steps@, #[trigger] queue0[r] as int, x) by {
                        assert(queue0[r] == idx);
                    }
                    lemma_release_skip(steps@, queue0, x, h - 1, h);
                    lemma_release_bounds(steps@, queue0, x, h - 1);
                    if t < m {
                        assert(q[t] == queue0[t]);
                        lemma_release_same(steps@, q, queue0, y, h);
                        assert forall|r: int| h - 1 <= r < h implies !feeds(steps@, #[trigger] queue0[r] as int, y) by {
                            assert(queue0[r] == idx);
                        }
                        lemma_release_skip(steps@, queue0, y, h - 1, h);
                        assert(ready_before(steps@, queue0, h - 1, queue0[p] as int, queue0[t] as int));
                    } else {
                        assert(feeds(steps@, idx as int, y));
                        assert(q[h - 1] == idx);
                        assert(release(steps@, q, y, h) == h - 1);
                    }
                } else {
                    assert(feeds(steps@, idx as int, y));
                    assert(feeds(steps@, idx as int, x));
                    assert(q[h - 1] == idx);
                    assert(release(steps@, q, y, h) == h - 1);
                    assert(release(steps@, q, x, h) == h - 1);
                    assert(q[p] < q[t]);
                }
            }
        }
    }
    let reached = queue.len();
    let ghost pos_main = pos@;
    let ghost queue_main = queue@;
    let mut order = queue;
    let mut t: usize = 0;
    while t < n
        invariant
            n == steps@.len(),
            reached == queue_main.len(),
            reached <= order@.len() <= n,
            t <= n,
            pos@.len() == n,
            pos_main.len() == n,
            in_degree@.len() == n,
            forall|p: int| 0 <= p < reached ==> #[trigger] order@[p] == queue_main[p],
            forall|p: int| 0 <= p < order@.len() ==> #[trigger] order@[p] < n && pos@[order@[p] as int] == p,
            forall|k: int| 0 <= k < n ==> #[trigger] pos@[k] < order@.len() ==> order@[pos@[k] as int] == k,
            forall|k: int| 0 <= k < n ==> #[trigger] pos@[k] >= order@.len() ==> pos@[k] == n,
            forall|k: int| 0 <= k < t ==> #[trigger] pos@[k] < order@.len(),
            forall|k: int| t <= k < n ==> #[trigger] pos@[k] == pos_main[k],
            forall|k: int| 0 <= k < n ==> #[trigger] pos_main[k] < reached ==> queue_main[pos_main[k] as int] == k,
            forall|k: int| 0 <= k < n ==> #[trigger] pos_main[k] >= reached ==> pos_main[k] == n,
            forall|k: int| 0 <= k < n && pos_main[k] < reached ==> #[trigger] pos@[k] == pos_main[k],
            forall|p: int| reached <= p < order@.len() ==> #[trigger] order@[p] < t && pos_main[order@[p] as int] == n,
            forall|p: int, q: int| reached <= p < q < order@.len() ==> #[trigger] order@[p] < #[trigger] order@[q],
            forall|k: int| 0 <= k < n ==> (#[trigger] in_degree@[k] == 0 <==> pos_main[k] < reached),
            forall|k: int| 0 <= k < n ==> #[trigger] in_degree@[k] == waiting(steps@, pos_main, reached as int, k, n as int),
            forall|p: int, u: int| 0 <= p < u < reached ==> #[trigger] ready_before(
                steps@,
                queue_main,
                reached as int,
                queue_main[p] as int,
                queue_main[u] as int,
            ),
        decreases n - t,
    {
        if pos[t] == n {
            let ghost order1 = order@;
            let ghost pos1 = pos@;
            proof {
                assert(!order1.contains(t)) by {
                    if order1.contains(t) {
                        let p = choose|p: int| 0 <= p < order1.len() && order1[p] == t;
                        assert(pos1[order1[p] as int] == p);
                    }
                }
                assert(order1.push(t).no_duplicates()) by {
                    assert forall|a: int, b: int| 0 <= a < b < order1.len() + 1 implies order1.push(t)[a] != order1.push(t)[b] by {
                        if b < order1.len() {
                            assert(pos1[order1[a] as int] == a);
                            assert(pos1[order1[b] as int] == b);
                        } else {
                            assert(order1[a] != t);
                        }
                    }
                }
                lemma_distinct_len(order1.push(t), n as int);
            }
            pos.set(t, order.len());
            order.push(t);
        }
        t = t + 1;
    }
    proof {
        let o = order@;
        assert(o.no_duplicates()) by {
            assert forall|a: int, b: int| 0 <= a < b < o.len() implies o[a] != o[b] by {
                assert(pos@[o[a] as int] == a);
                assert(pos@[o[b] as int] == b);
            }
        }
        assert forall|k: int| 0 <= k < n implies #[trigger] o.contains(k as usize) by {
            assert(o[pos@[k] as int] == k);
        }
        lemma_permutation_len(o, n as int);
        assert forall|p: int, q: int|
            0 <= p < reached && 0 <= q < n && #[trigger] feeds(steps@, o[q] as int, o[p] as int) implies q < p by {
            assert(o[p] == queue_main[p]);
            assert(pos_main[o[q] as int] < p);
            assert(queue_main[pos_main[o[q] as int] as int] == o[q]);
            assert(pos@[o[q] as int] == pos_main[o[q] as int]);
        }
        assert forall|p: int| reached <= p < n implies #[trigger] waits_on_tail(steps@, o, reached as int, p) by {
            let i = o[p] as int;
            assert(pos_main[i] == n);
            assert(in_degree@[i] != 0);
            lemma_waiting_zero(steps@, pos_main, reached as int, i, n as int);
            let j = choose|j: int| 0 <= j < n && #[trigger] feeds(steps@, j, i) && !(pos_main[j] < reached);
            let q = pos@[j] as int;
            assert(o[q] == j);
            if q < reached {
                assert(queue_main[q] == j);
            }
            assert(feeds(steps@, o[q] as int, o[p] as int));
        }
        assert forall|p: int, u: int| 0 <= p < u < reached implies #[trigger] ready_before(
            steps@,
            o,
            reached as int,
            o[p] as int,
            o[u] as int,
        ) by {
            assert(o[p] == queue_main[p]);
            assert(o[u] == queue_main[u]);
            assert forall|r: int| 0 <= r < reached implies o[r] == queue_main[r] by {}
            lemma_release_same(steps@, o, queue_main, o[p] as int, reached as int);
            lemma_release_same(steps@, o, queue_main, o[u] as int, reached as int);
            assert(ready_before(steps@, queue_main, reached as int, queue_main[p] as int, queue_main[u] as int));
        }
    }
    (order, reached)
}

/// `result` holds the steps of `steps` at the positions listed in `order`.
pub open spec fn arranged(steps: Seq<TransformStep>, order: Seq<usize>, result: Seq<TransformStep>) -> bool {
    &&& result.len() == order.len()
    &&& forall|p: int| 0 <= p < order.len() ==> #[trigger] result[p] == steps[order[p] as int]
}

/// `result` is `steps` rearranged so that each step comes after the steps
/// that feed it; steps that wait on a cycle come last, in their original order.
pub open spec fn sorted_by_dependencies(steps: Seq<TransformStep>, result: Seq<TransformStep>) -> bool {
    exists|order: Seq<usize>, reached: int|
        #[trigger] is_dependency_order(steps, order, reached) && #[trigger] arranged(steps, order, result)
}

/// Sort `steps` so that each step comes after the steps that write what it
/// reads. Steps caught in a cycle are kept, after the others.
pub fn topo_sort_owned(steps: Vec<TransformStep>) -> (result: Vec<TransformStep>)
    ensures
        sorted_by_dependencies(steps@, result@),
{
    let n = steps.len();
    let (order, reached) = topo_order(&steps);
    let ghost input = steps@;
    let mut rest = steps;
    let mut slots: Vec<Option<TransformStep>> = Vec::new();
    while rest.len() > 0
        invariant
            n == input.len(),
            slots@.len() + rest@.len() == n,
            rest@ == input.take(rest@.len() as int),
            forall|k: int| 0 <= k < slots@.len() ==> #[trigger] slots@[k] == Some(input[n - 1 - k]),
        decreases rest@.len(),
    {
        let ghost before = rest@;
        match rest.pop() {
            Some(step) => {
                slots.push(Some(step));
                proof {
                    assert(rest@ =~= input.take(rest@.len() as int));
                }
            },
            None => {},
        }
    }
    let mut result: Vec<TransformStep> = Vec::new();
    let mut p: usize = 0;
    while p < n
        invariant
            n == input.len(),
            is_dependency_order(input, order@, reached as int),
            slots@.len() == n,
            p <= n,
            result@.len() == p,
            forall|q: int| 0 <= q < p ==> #[trigger] result@[q] == input[order@[q] as int],
            forall|q: int| p <= q < n ==> #[trigger] slots@[n - 1 - order@[q]] == Some(input[order@[q] as int]),
        decreases n - p,
    {
        let i = order[p];
        let ghost slots0 = slots@;
        let mut taken: Option<TransformStep> = None;
        slots.set_and_swap(n - 1 - i, &mut taken);
        proof {
            assert forall|q: int| p + 1 <= q < n implies #[trigger] slots@[n - 1 - order@[q]] == Some(input[order@[q] as int]) by {
                assert(order@[q] != order@[p as int]);
                assert(slots0[n - 1 - order@[q]] == Some(input[order@[q] as int]));
            }
        }
        match taken {
            Some(step) => {
                result.push(step);
            },
            None => {},
        }
        p = p + 1;
    }
    proof {
        assert(arranged(input, order@, result@));
    }
    result
}

/// `cycle` lists steps each fed by the next one, the last fed by the first.
pub open spec fn is_cycle(steps: Seq<TransformStep>, cycle: Seq<int>) -> bool {
    &&& cycle.len() > 0
    &&& forall|k: int| 0 <= k < cycle.len() ==> 0 <= #[trigger] cycle[k] < steps.len()
    &&& forall|k: int| #![trigger cycle[k]] 0 <= k < cycle.len() - 1 ==> feeds(steps, cycle[k + 1], cycle[k])
    &&& feeds(steps, cycle[0], cycle[cycle.len() - 1])
}

/// Some steps feed each other in a cycle.
pub open spec fn has_cycle(steps: Seq<TransformStep>) -> bool {
    exists|cycle: Seq<int>| #[trigger] is_cycle(steps, cycle)
}

/// A sequence of distinct integers in `[0, n)` is at most `n` long.
proof fn lemma_distinct_int_len(s: Seq<int>, n: int)
    requires
        0 <= n,
        s.no_duplicates(),
        forall|p: int| 0 <= p < s.len() ==> 0 <= #[trigger] s[p] < n,
    ensures
        s.len() <= n,
{
    assert(s.to_set().subset_of(vstd::set_lib::set_int_range(0, n)));
    s.unique_seq_to_set();
    vstd::set_lib::lemma_int_range(0, n);
    vstd::set_lib::lemma_len_subset(s.to_set(), vstd::set_lib::set_int_range(0, n));
}

/// Following feeders backwards through the steps left unordered either
/// meets a step already seen, closing a cycle, or goes on.
proof fn lemma_walk_back(steps: Seq<TransformStep>, order: Seq<usize>, reached: int, walk: Seq<int>)
    requires
        is_dependency_order(steps, order, reached),
        walk.len() > 0,
        walk.no_duplicates(),
        forall|k: int| 0 <= k < walk.len() ==> reached <= #[trigger] walk[k] < steps.len(),
        forall|k: int| #![trigger walk[k]] 0 <= k < walk.len() - 1 ==> feeds(
            steps,
            order[walk[k + 1]] as int,
            order[walk[k]] as int,
        ),
    ensures
        has_cycle(steps),
    decreases steps.len() - walk.len(),
{
    let n = steps.len() as int;
    lemma_distinct_int_len(walk, n);
    let last = walk[walk.len() - 1];
    assert(waits_on_tail(steps, order, reached, last));
    let q = choose|q: int| reached <= q < n && #[trigger] feeds(steps, order[q] as int, order[last] as int);
    if walk.contains(q) {
        let m = walk.index_of(q);
        let part = walk.subrange(m, walk.len() as int);
        let cycle = part.map_values(|x: int| order[x] as int);
        assert(is_cycle(steps, cycle)) by {
            assert forall|k: int| #![trigger cycle[k]] 0 <= k < cycle.len() - 1 implies feeds(steps, cycle[k + 1], cycle[k]) by {
                assert(walk[m + k] == part[k]);
                assert(walk[m + k + 1] == part[k + 1]);
            }
            assert(cycle[0] == order[q] as int);
        }
    } else {
        let longer = walk.push(q);
        assert(longer.no_duplicates()) by {
            assert forall|a: int, b: int| 0 <= a < b < longer.len() implies longer[a] != longer[b] by {
                if b == walk.len() {
                    assert(longer[a] == walk[a]);
                }
            }
        }
        lemma_distinct_int_len(longer, n);
        assert forall|k: int| #![trigger longer[k]] 0 <= k < longer.len() - 1 implies feeds(
            steps,
            order[longer[k + 1]] as int,
            order[longer[k]] as int,
        ) by {
            if k < walk.len() - 1 {
                assert(walk[k] == longer[k]);
                assert(walk[k + 1] == longer[k + 1]);
            }
        }
        lemma_walk_back(steps, order, reached, longer);
    }
}

/// A dependency order leaves no step unordered unless some steps feed each
/// other in a cycle.
pub proof fn lemma_acyclic_steps_all_ordered(steps: Seq<TransformStep>, order: Seq<usize>, reached: int)
    requires
        is_dependency_order(steps, order, reached),
        !has_cycle(steps),
    ensures
        reached == steps.len(),
{
    if reached < steps.len() {
        lemma_walk_back(steps, order, reached, seq![reached]);
    }
}

/// Every position below `order.len()` occurs in a dependency order.
proof fn lemma_order_onto(steps: Seq<TransformStep>, order: Seq<usize>, reached: int, x: int)
    requires
        is_dependency_order(steps, order, reached),
        0 <= x < steps.len(),
    ensures
        exists|q: int| 0 <= q < order.len() && order[q] == x,
{
    let n = steps.len() as int;
    let t = order.map_values(|v: usize| v as int);
    assert(t.no_duplicates()) by {
        assert forall|a: int, b: int| 0 <= a < b < t.len() implies t[a] != t[b] by {
            assert(order[a] != order[b]);
        }
    }
    assert(t.to_set().subset_of(vstd::set_lib::set_int_range(0, n))) by {
        assert forall|v: int| t.to_set().contains(v) implies 0 <= v < n by {
            let p = choose|p: int| 0 <= p < t.len() && t[p] == v;
            assert(order[p] < n);
        }
    }
    t.unique_seq_to_set();
    vstd::set_lib::lemma_int_range(0, n);
    vstd::set_lib::lemma_subset_equality(t.to_set(), vstd::set_lib::set_int_range(0, n));
    assert(t.to_set().contains(x));
    let q = choose|q: int| 0 <= q < t.len() && t[q] == x;
    assert(order[q] == x);
}

/// Position in `order` of step `x`.
spec fn position_of(order: Seq<usize>, x: int) -> int {
    choose|q: int| 0 <= q < order.len() && order[q] == x
}

proof fn lemma_positions_fall(steps: Seq<TransformStep>, order: Seq<usize>, cycle: Seq<int>, k: int)
    requires
        is_dependency_order(steps, order, steps.len() as int),
        is_cycle(steps, cycle),
        0 <= k < cycle.len(),
    ensures
        0 <= position_of(order, cycle[k]) < order.len(),
        order[position_of(order, cycle[k])] == cycle[k],
        position_of(order, cycle[k]) <= position_of(order, cycle[0]) - k,
    decreases k,
{
    lemma_order_onto(steps, order, steps.len() as int, cycle[k]);
    if k > 0 {
        lemma_positions_fall(steps, order, cycle, k - 1);
        assert(feeds(steps, cycle[k], cycle[k - 1]));
        let a = position_of(order, cycle[k]);
        let b = position_of(order, cycle[k - 1]);
        assert(feeds(steps, order[a] as int, order[b] as int));
    }
}

/// When a dependency order places every step, no steps feed each other in
/// a cycle.
pub proof fn lemma_all_ordered_acyclic(steps: Seq<TransformStep>, order: Seq<usize>)
    requires
        is_dependency_order(steps, order, steps.len() as int),
    ensures
        !has_cycle(steps),
{
    if has_cycle(steps) {
        let cycle = choose|cycle: Seq<int>| #[trigger] is_cycle(steps, cycle);
        let last = cycle.len() - 1;
        lemma_positions_fall(steps, order, cycle, last);
        lemma_positions_fall(steps, order, cycle, 0);
        let a = position_of(order, cycle[0]);
        let b = position_of(order, cycle[last]);
        assert(feeds(steps, order[a] as int, order[b] as int));
    }
}

/// A change of the object type that a pending step reads.
#[derive(Debug, Clone)]
pub struct RouteChange {
    /// The step to change.
    pub step: ApiName,
    /// The object type it reads from now on.
    pub new_source: ApiName,
}

/// How a decision step changes the pending steps.
#[derive(Debug, Clone)]
pub struct StepDirective {
    /// Steps to add.
    pub inject: Vec<TransformStep>,
    /// Names of pending steps to drop.
    pub remove: Vec<ApiName>,
    /// Sources to change.
    pub reroute: Vec<RouteChange>,
}

impl StepDirective {
    /// A directive that changes nothing.
    pub fn empty() -> (result: StepDirective)
        ensures
            result.inject@.len() == 0,
            result.remove@.len() == 0,
            result.reroute@.len() == 0,
    {
        StepDirective { inject: Vec::new(), remove: Vec::new(), reroute: Vec::new() }
    }
}

/// Views of a list of names.
pub open spec fn name_views(names: Seq<ApiName>) -> Seq<Seq<char>> {
    names.map_values(|n: ApiName| n@)
}

/// `steps` without those whose name is listed in `names`, in order.
pub open spec fn without_named(steps: Seq<TransformStep>, names: Seq<Seq<char>>) -> Seq<TransformStep>
    decreases steps.len(),
{
    if steps.len() == 0 {
        Seq::empty()
    } else {
        let rest = without_named(steps.drop_last(), names);
        if names.contains(steps.last().api_name@) {
            rest
        } else {
            rest.push(steps.last())
        }
    }
}

/// Source of the step named `name` after applying `changes` in turn to a
/// step that read `source`: the last change for that step wins.
pub open spec fn routed(changes: Seq<RouteChange>, name: Seq<char>, source: Seq<char>) -> Seq<char>
    decreases changes.len(),
{
    if changes.len() == 0 {
        source
    } else if changes.last().step@ == name {
        changes.last().new_source@
    } else {
        routed(changes.drop_last(), name, source)
    }
}

/// `after` is `before` with each source changed as `changes` say.
pub open spec fn rerouted(before: Seq<TransformStep>, after: Seq<TransformStep>, changes: Seq<RouteChange>) -> bool {
    &&& after.len() == before.len()
    &&& forall|k: int| #![trigger after[k]] 0 <= k < before.len() ==> {
        &&& after[k].source@ == routed(changes, before[k].api_name@, before[k].source@)
        &&& after[k] == TransformStep { source: after[k].source, ..before[k] }
    }
}

/// Position of the first step in `steps` named `name`, if any.
pub open spec fn first_named(steps: Seq<TransformStep>, name: Seq<char>, found: Option<usize>) -> bool {
    match found {
        Some(k) => {
            &&& k < steps.len()
            &&& steps[k as int].api_name@ == name
            &&& forall|j: int| 0 <= j < k ==> #[trigger] steps[j].api_name@ != name
        },
        None => forall|j: int| 0 <= j < steps.len() ==> #[trigger] steps[j].api_name@ != name,
    }
}

/// Position of the first step in `steps` named `name`, if any.
pub open spec fn first_index(steps: Seq<TransformStep>, name: Seq<char>) -> Option<usize> {
    if exists|k: usize| #[trigger] first_named(steps, name, Some(k)) {
        Some(choose|k: usize| #[trigger] first_named(steps, name, Some(k)))
    } else {
        None
    }
}

/// The first position named `name` is the one `first_index` gives.
pub proof fn lemma_first_index(steps: Seq<TransformStep>, name: Seq<char>, found: Option<usize>)
    requires
        first_named(steps, name, found),
    ensures
        found == first_index(steps, name),
{
    match found {
        Some(k) => {
            assert(first_named(steps, name, Some(k)));
            let c = choose|c: usize| #[trigger] first_named(steps, name, Some(c));
            if c < k {
                assert(steps[c as int].api_name@ != name);
            }
            if k < c {
                assert(steps[k as int].api_name@ != name);
            }
        },
        None => {
            if exists|k: usize| #[trigger] first_named(steps, name, Some(k)) {
                let c = choose|c: usize| #[trigger] first_named(steps, name, Some(c));
                assert(steps[c as int].api_name@ == name);
            }
        },
    }
}

/// Pending steps of a pipeline run, which decision steps may change, and
/// the names of the steps that are done.
pub struct ExecutionQueue {
    pending: Vec<TransformStep>,
    completed: Vec<ApiName>,
}

impl ExecutionQueue {
    /// Steps still to run, in order.
    pub closed spec fn pending_steps(&self) -> Seq<TransformStep> {
        self.pending@
    }

    /// Names of the steps done, in the order they were done.
    pub closed spec fn completed_names(&self) -> Seq<ApiName> {
        self.completed@
    }

    /// A queue of `steps`, sorted by dependencies.
    pub fn from_steps(steps: Vec<TransformStep>) -> (result: ExecutionQueue)
        ensures
            sorted_by_dependencies(steps@, result.pending_steps()),
            result.completed_names().len() == 0,
    {
        let sorted = topo_sort_owned(steps);
        ExecutionQueue { pending: sorted, completed: Vec::new() }
    }

    /// Steps still to run.
    pub fn pending(&self) -> (result: &Vec<TransformStep>)
        ensures
            result@ == self.pending_steps(),
    {
        &self.pending
    }

    /// Names of the steps done.
    pub fn completed(&self) -> (result: &Vec<ApiName>)
        ensures
            result@ == self.completed_names(),
    {
        &self.completed
    }

    /// Take the next step to run.
    pub fn pop(&mut self) -> (result: Option<TransformStep>)
        ensures
            old(self).pending_steps().len() == 0 ==> result is None && final(self).pending_steps() == old(self).pending_steps(),
            old(self).pending_steps().len() > 0 ==> result == Some(old(self).pending_steps()[0])
                && final(self).pending_steps() == old(self).pending_steps().drop_first(),
            final(self).completed_names() == old(self).completed_names(),
    {
        if self.pending.len() == 0 {
            None
        } else {
            Some(self.pending.remove(0))
        }
    }

    /// Record that the step named `name` is done.
    pub fn mark_completed(&mut self, name: ApiName)
        ensures
            final(self).pending_steps() == old(self).pending_steps(),
            final(self).completed_names() == old(self).completed_names().push(name),
    {
        self.completed.push(name);
    }

    /// Add `steps` to the pending steps and sort them all by dependencies again.
    pub fn inject(&mut self, steps: Vec<TransformStep>)
        ensures
            sorted_by_dependencies(old(self).pending_steps() + steps@, final(self).pending_steps()),
            final(self).completed_names() == old(self).completed_names(),
    {
        let mut all: Vec<TransformStep> = Vec::new();
        std::mem::swap(&mut all, &mut self.pending);
        let mut added = steps;
        all.append(&mut added);
        self.pending = topo_sort_owned(all);
    }

    /// Drop the pending steps whose name is listed in `names`.
    pub fn remove(&mut self, names: &Vec<ApiName>)
        ensures
            final(self).pending_steps() == without_named(old(self).pending_steps(), name_views(names@)),
            final(self).completed_names() == old(self).completed_names(),
    {
        let mut items: Vec<TransformStep> = Vec::new();
        std::mem::swap(&mut items, &mut self.pending);
        let ghost input = items@;
        let ghost wanted = name_views(names@);
        let mut reversed: Vec<TransformStep> = Vec::new();
        while items.len() > 0
            invariant
                items@.len() + reversed@.len() == input.len(),
                items@ == input.take(items@.len() as int),
                forall|k: int| 0 <= k < reversed@.len() ==> #[trigger] reversed@[k] == input[input.len() - 1 - k],
            decreases items@.len(),
        {
            match items.pop() {
                Some(step) => {
                    reversed.push(step);
                    proof {
                        assert(items@ =~= input.take(items@.len() as int));
                    }
                },
                None => {},
            }
        }
        let mut kept: Vec<TransformStep> = Vec::new();
        let ghost mut done: int = 0;
        while reversed.len() > 0
            invariant
                reversed@.len() + done == input.len(),
                0 <= done <= input.len(),
                forall|k: int| 0 <= k < reversed@.len() ==> #[trigger] reversed@[k] == input[input.len() - 1 - k],
                kept@ == without_named(input.take(done), wanted),
                wanted == name_views(names@),
            decreases reversed@.len(),
        {
            match reversed.pop() {
                Some(step) => {
                    proof {
                        assert(step == input[done]);
                        assert(input.take(done + 1).drop_last() =~= input.take(done));
                        assert(input.take(done + 1).last() == input[done]);
                    }
                    if !Self::listed(names, &step.api_name) {
                        kept.push(step);
                    }
                    proof {
                        done = done + 1;
                    }
                },
                None => {},
            }
        }
        proof {
            assert(input.take(done) =~= input);
        }
        self.pending = kept;
    }

    /// Whether `name` is listed in `names`.
    fn listed(names: &Vec<ApiName>, name: &ApiName) -> (result: bool)
        ensures
            result == name_views(names@).contains(name@),
    {
        let mut i: usize = 0;
        while i < names.len()
            invariant
                i <= names@.len(),
                forall|j: int| 0 <= j < i ==> names@[j]@ != name@,
            decreases names@.len() - i,
        {
            if names[i].same(name) {
                proof {
                    assert(name_views(names@)[i as int] == name@);
                }
                return true;
            }
            i = i + 1;
        }
        proof {
            assert forall|j: int| 0 <= j < names@.len() implies name_views(names@)[j] != name@ by {
                assert(name_views(names@)[j] == names@[j]@);
            }
        }
        false
    }

    /// Source that a step named `name` reading `source` reads after `changes`.
    fn routed_source(changes: &Vec<RouteChange>, name: &ApiName, source: ApiName) -> (result: ApiName)
        ensures
            result@ == routed(changes@, name@, source@),
    {
        let mut current = source;
        let mut i: usize = 0;
        while i < changes.len()
            invariant
                i <= changes@.len(),
                current@ == routed(changes@.take(i as int), name@, source@),
            decreases changes@.len() - i,
        {
            proof {
                assert(changes@.take(i + 1).drop_last() =~= changes@.take(i as int));
            }
            if changes[i].step.same(name) {
                current = changes[i].new_source.duplicate();
            }
            i = i + 1;
        }
        proof {
            assert(changes@.take(i as int) =~= changes@);
        }
        current
    }

    /// Change the sources of the pending steps as `changes` say, in turn.
    pub fn reroute(&mut self, changes: &Vec<RouteChange>)
        ensures
            rerouted(old(self).pending_steps(), final(self).pending_steps(), changes@),
            final(self).completed_names() == old(self).completed_names(),
    {
        let mut items: Vec<TransformStep> = Vec::new();
        std::mem::swap(&mut items, &mut self.pending);
        let ghost input = items@;
        let mut reversed: Vec<TransformStep> = Vec::new();
        while items.len() > 0
            invariant
                items@.len() + reversed@.len() == input.len(),
                items@ == input.take(items@.len() as int),
                forall|k: int| 0 <= k < reversed@.len() ==> #[trigger] reversed@[k] == input[input.len() - 1 - k],
            decreases items@.len(),
        {
            match items.pop() {
                Some(step) => {
                    reversed.push(step);
                    proof {
                        assert(items@ =~= input.take(items@.len() as int));
                    }
                },
                None => {},
            }
        }
        let mut out: Vec<TransformStep> = Vec::new();
        while reversed.len() > 0
            invariant
                reversed@.len() + out@.len() == input.len(),
                forall|k: int| 0 <= k < reversed@.len() ==> #[trigger] reversed@[k] == input[input.len() - 1 - k],
                rerouted(input.take(out@.len() as int), out@, changes@),
            decreases reversed@.len(),
        {
            match reversed.pop() {
                Some(step) => {
                    let ghost k = out@.len() as int;
                    proof {
                        assert(step == input[k]);
                    }
                    let new_source = Self::routed_source(changes, &step.api_name, step.source.duplicate());
                    let moved = TransformStep { source: new_source, ..step };
                    out.push(moved);
                    proof {
                        assert forall|j: int| #![trigger out@[j]] 0 <= j < out@.len() implies {
                            &&& out@[j].source@ == routed(changes@, input.take(k + 1)[j].api_name@, input.take(k + 1)[j].source@)
                            &&& out@[j] == TransformStep { source: out@[j].source, ..input.take(k + 1)[j] }
                        } by {
                            if j < k {
                                assert(input.take(k + 1)[j] == input.take(k)[j]);
                            }
                        }
                    }
                },
                None => {},
            }
        }
        proof {
            assert(input.take(out@.len() as int) =~= input);
        }
        self.pending = out;
    }

    /// Position of the first pending step named `name`.
    pub fn find_index(&self, name: &ApiName) -> (result: Option<usize>)
        ensures
            first_named(self.pending_steps(), name@, result),
            result == first_index(self.pending_steps(), name@),
    {
        let found = self.find_first(name);
        proof {
            lemma_first_index(self.pending@, name@, found);
        }
        found
    }

    /// Take out the pending step at position `at`.
    pub fn take_at(&mut self, at: usize) -> (result: TransformStep)
        requires
            at < old(self).pending_steps().len(),
        ensures
            result == old(self).pending_steps()[at as int],
            final(self).pending_steps() == old(self).pending_steps().remove(at as int),
            final(self).completed_names() == old(self).completed_names(),
    {
        self.pending.remove(at)
    }

    /// Put `step` back among the pending steps at position `at`.
    pub fn put_back(&mut self, at: usize, step: TransformStep)
        requires
            at <= old(self).pending_steps().len(),
        ensures
            final(self).pending_steps() == old(self).pending_steps().insert(at as int, step),
            final(self).completed_names() == old(self).completed_names(),
    {
        self.pending.insert(at, step);
    }

    fn find_first(&self, name: &ApiName) -> (result: Option<usize>)
        ensures
            first_named(self.pending_steps(), name@, result),
    {
        let mut i: usize = 0;
        while i < self.pending.len()
            invariant
                i <= self.pending@.len(),
                forall|j: int| 0 <= j < i ==> #[trigger] self.pending@[j].api_name@ != name@,
            decreases self.pending@.len() - i,
        {
            if self.pending[i].api_name.same(name) {
                return Some(i);
            }
            i = i + 1;
        }
        None
    }

    /// The first pending step named `name`.
    pub fn find_step(&self, name: &ApiName) -> (result: Option<&TransformStep>)
        ensures
            match result {
                Some(step) => exists|k: usize| #[trigger] first_named(self.pending_steps(), name@, Some(k))
                    && *step == self.pending_steps()[k as int],
                None => first_named(self.pending_steps(), name@, None),
            },
    {
        match self.find_index(name) {
            Some(k) => Some(&self.pending[k]),
            None => None,
        }
    }
}

} // verus!
