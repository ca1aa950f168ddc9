//! The integer side of shard rebalancing: grouping shards by node, picking
//! the shards to move from overloaded nodes to the least loaded one, and
//! estimating how long the moves take and how many bytes they carry.
//!
//! Which nodes count as overloaded or underloaded, and in which order, is
//! decided by the caller from floating-point query rates.
use vstd::prelude::*;

verus! {

/// Most moves one rebalancing plan makes.
pub const MAX_MOVES_PER_PLAN: usize = 5;

/// Seconds that moving one shard is expected to take.
pub const SECONDS_PER_MOVE: u64 = 300;

/// Why a shard moves.
#[derive(Debug, Clone, Copy, PartialEq, Eq, Structural)]
pub enum RebalanceReason {
    LoadImbalance,
    DiskSpaceImbalance,
    NodeAdded,
    NodeRemoved,
}

/// A shard to move from one node to another.
#[derive(Debug, Clone, Copy, PartialEq, Eq, Structural)]
pub struct ShardMove {
    pub shard_id: u32,
    pub from_node: u64,
    pub to_node: u64,
    pub reason: RebalanceReason,
}

/// Where a shard lives and how large it is.
#[derive(Debug, Clone, Copy)]
pub struct ShardPlacement {
    pub shard_id: u32,
    pub node_id: u64,
    pub point_count: usize,
    pub disk_usage_bytes: u64,
}

/// Totals of the shards on one node.
#[derive(Debug, Clone, Copy)]
pub struct NodeTotals {
    pub node_id: u64,
    pub total_points: usize,
    pub total_disk_bytes: u64,
    pub shard_count: usize,
}

/// Shards grouped by node: the nodes in the order in which they first
/// appear, and for each shard the position of its node among them.
#[derive(Debug)]
pub struct NodeAggregation {
    pub nodes: Vec<NodeTotals>,
    pub node_of: Vec<usize>,
}

/// The nodes that hold shards, each once, in order of first appearance.
pub open spec fn node_order(s: Seq<ShardPlacement>) -> Seq<u64>
    decreases s.len(),
{
    if s.len() == 0 {
        Seq::empty()
    } else {
        let prev = node_order(s.drop_last());
        if prev.contains(s.last().node_id) {
            prev
        } else {
            prev.push(s.last().node_id)
        }
    }
}

/// Sum of `f` over the shards on `node`.
pub open spec fn sum_on(s: Seq<ShardPlacement>, node: u64, f: spec_fn(ShardPlacement) -> int) -> int
    decreases s.len(),
{
    if s.len() == 0 {
        0
    } else {
        sum_on(s.drop_last(), node, f) + if s.last().node_id == node {
            f(s.last())
        } else {
            0
        }
    }
}

/// Points of a shard.
pub open spec fn point_weight() -> spec_fn(ShardPlacement) -> int {
    |p: ShardPlacement| p.point_count as int
}

/// Bytes of a shard.
pub open spec fn disk_weight() -> spec_fn(ShardPlacement) -> int {
    |p: ShardPlacement| p.disk_usage_bytes as int
}

/// One per shard.
pub open spec fn unit_weight() -> spec_fn(ShardPlacement) -> int {
    |p: ShardPlacement| 1int
}

/// Points held by the shards on `node`.
pub open spec fn points_on(s: Seq<ShardPlacement>, node: u64) -> int {
    sum_on(s, node, point_weight())
}

/// Bytes held by the shards on `node`.
pub open spec fn disk_on(s: Seq<ShardPlacement>, node: u64) -> int {
    sum_on(s, node, disk_weight())
}

/// Number of shards on `node`.
pub open spec fn count_on(s: Seq<ShardPlacement>, node: u64) -> int {
    sum_on(s, node, unit_weight())
}

/// The first shard, at position `i` or later, that lives on `node`.
pub open spec fn first_shard_on(s: Seq<ShardPlacement>, node: u64, i: int) -> Option<u32>
    decreases s.len() - i,
{
    if i < 0 || i >= s.len() {
        None
    } else if s[i].node_id == node {
        Some(s[i].shard_id)
    } else {
        first_shard_on(s, node, i + 1)
    }
}

/// Disk usage of the first shard, at position `i` or later, with id
/// `shard_id`.
pub open spec fn first_disk_of_shard(s: Seq<ShardPlacement>, shard_id: u32, i: int) -> Option<u64>
    decreases s.len() - i,
{
    if i < 0 || i >= s.len() {
        None
    } else if s[i].shard_id == shard_id {
        Some(s[i].disk_usage_bytes)
    } else {
        first_disk_of_shard(s, shard_id, i + 1)
    }
}

/// Moves planned from the overloaded nodes at position `i` on, toward
/// `target`, after the moves `acc`: each overloaded node in turn gives up its
/// first shard, until five moves are planned.
pub open spec fn load_moves_from(
    s: Seq<ShardPlacement>,
    over: Seq<u64>,
    target: u64,
    i: int,
    acc: Seq<ShardMove>,
) -> Seq<ShardMove>
    decreases over.len() - i,
{
    if i < 0 || i >= over.len() {
        acc
    } else {
        match first_shard_on(s, over[i], 0) {
            Some(shard_id) => {
                let next = acc.push(
                    ShardMove {
                        shard_id,
                        from_node: over[i],
                        to_node: target,
                        reason: RebalanceReason::LoadImbalance,
                    },
                );
                if next.len() >= MAX_MOVES_PER_PLAN {
                    next
                } else {
                    load_moves_from(s, over, target, i + 1, next)
                }
            },
            None => load_moves_from(s, over, target, i + 1, acc),
        }
    }
}

/// The moves of a load rebalancing: toward the first underloaded node,
/// none if there is no underloaded node.
pub open spec fn load_moves(s: Seq<ShardPlacement>, over: Seq<u64>, under: Seq<u64>) -> Seq<
    ShardMove,
> {
    if under.len() == 0 {
        Seq::empty()
    } else {
        load_moves_from(s, over, under[0], 0, Seq::empty())
    }
}

/// Sums over a prefix never exceed the sum over the whole sequence, for a
/// non-negative `f`.
pub proof fn lemma_sum_on_prefix(s: Seq<ShardPlacement>, node: u64, f: spec_fn(ShardPlacement) -> int, k: int)
    requires
        0 <= k <= s.len(),
        forall|p: ShardPlacement| #[trigger] f(p) >= 0,
    ensures
        0 <= sum_on(s.subrange(0, k), node, f) <= sum_on(s, node, f),
    decreases s.len(),
{
    if k == s.len() {
        assert(s.subrange(0, k) =~= s);
        lemma_sum_on_nonneg(s, node, f);
    } else {
        lemma_sum_on_prefix(s.drop_last(), node, f, k);
        assert(s.drop_last().subrange(0, k) =~= s.subrange(0, k));
    }
}

/// Points, bytes and shard counts are never negative.
proof fn lemma_weights_nonneg()
    ensures
        forall|p: ShardPlacement| #[trigger] point_weight()(p) >= 0,
        forall|p: ShardPlacement| #[trigger] disk_weight()(p) >= 0,
        forall|p: ShardPlacement| #[trigger] unit_weight()(p) >= 0,
{
}

/// Sums of a non-negative `f` are non-negative.
proof fn lemma_sum_on_nonneg(s: Seq<ShardPlacement>, node: u64, f: spec_fn(ShardPlacement) -> int)
    requires
        forall|p: ShardPlacement| #[trigger] f(p) >= 0,
    ensures
        sum_on(s, node, f) >= 0,
    decreases s.len(),
{
    if s.len() > 0 {
        lemma_sum_on_nonneg(s.drop_last(), node, f);
    }
}

/// Each node appears once in the node order, and exactly the nodes that hold
/// a shard appear.
pub proof fn lemma_node_order(s: Seq<ShardPlacement>)
    ensures
        node_order(s).no_duplicates(),
        forall|k: int| 0 <= k < s.len() ==> node_order(s).contains(#[trigger] s[k].node_id),
        forall|n: u64| node_order(s).contains(n) ==> exists|k: int| 0 <= k < s.len() && #[trigger] s[k].node_id == n,
    decreases s.len(),
{
    if s.len() > 0 {
        let d = s.drop_last();
        lemma_node_order(d);
        let prev = node_order(d);
        assert forall|k: int| 0 <= k < s.len() implies node_order(s).contains(#[trigger] s[k].node_id) by {
            if k < s.len() - 1 {
                assert(d[k] == s[k]);
                assert(prev.contains(d[k].node_id));
                let idx = choose|idx: int| 0 <= idx < prev.len() && prev[idx] == d[k].node_id;
                assert(node_order(s)[idx] == s[k].node_id);
            } else {
                if !prev.contains(s.last().node_id) {
                    assert(node_order(s)[prev.len() as int] == s.last().node_id);
                }
            }
        }
        assert forall|n: u64| node_order(s).contains(n) implies exists|k: int| 0 <= k < s.len() && #[trigger] s[k].node_id == n by {
            if prev.contains(n) {
                let k = choose|k: int| 0 <= k < d.len() && #[trigger] d[k].node_id == n;
                assert(s[k] == d[k]);
            } else {
                assert(s[s.len() - 1].node_id == n);
            }
        }
    }
}

/// Groups shards by node: the nodes in order of first appearance with the
/// points, bytes and shard count on each, and for each shard the position
/// of its node.
pub fn aggregate_by_node(shards: &Vec<ShardPlacement>) -> (r: NodeAggregation)
    requires
        forall|n: u64| #[trigger] points_on(shards@, n) <= usize::MAX,
        forall|n: u64| #[trigger] disk_on(shards@, n) <= u64::MAX,
    ensures
        r.nodes@.len() == node_order(shards@).len(),
        forall|i: int|
            0 <= i < r.nodes@.len() ==> {
                let n = #[trigger] r.nodes@[i];
                &&& n.node_id == node_order(shards@)[i]
                &&& n.total_points == points_on(shards@, n.node_id)
                &&& n.total_disk_bytes == disk_on(shards@, n.node_id)
                &&& n.shard_count == count_on(shards@, n.node_id)
            },
        r.node_of@.len() == shards@.len(),
        forall|k: int|
            0 <= k < shards@.len() ==> #[trigger] r.node_of@[k] < r.nodes@.len()
                && r.nodes@[r.node_of@[k] as int].node_id == shards@[k].node_id,
{
    let mut nodes: Vec<NodeTotals> = Vec::new();
    let mut node_of: Vec<usize> = Vec::new();
    let mut k: usize = 0;
    let ghost s = shards@;
    assert(s.subrange(0, 0) =~= Seq::<ShardPlacement>::empty());
    while k < shards.len()
        invariant
            s == shards@,
            k <= shards.len(),
            forall|n: u64| #[trigger] points_on(shards@, n) <= usize::MAX,
            forall|n: u64| #[trigger] disk_on(shards@, n) <= u64::MAX,
            nodes@.len() == node_order(s.subrange(0, k as int)).len(),
            forall|i: int|
                0 <= i < nodes@.len() ==> {
                    let n = #[trigger] nodes@[i];
                    &&& n.node_id == node_order(s.subrange(0, k as int))[i]
                    &&& n.total_points == points_on(s.subrange(0, k as int), n.node_id)
                    &&& n.total_disk_bytes == disk_on(s.subrange(0, k as int), n.node_id)
                    &&& n.shard_count == count_on(s.subrange(0, k as int), n.node_id)
                },
            node_of@.len() == k,
            forall|j: int|
                0 <= j < k ==> #[trigger] node_of@[j] < nodes@.len() && nodes@[node_of@[j] as int].node_id
                    == s[j].node_id,
        decreases shards.len() - k,
    {
        let ghost p = s.subrange(0, k as int);
        let ghost p2 = s.subrange(0, k + 1);
        assert(p2.drop_last() =~= p);
        assert(p2.last() == s[k as int]);
        proof {
            lemma_node_order(p);
            lemma_weights_nonneg();
        }
        let shard = shards[k];
        let id = shard.node_id;
        let mut j: usize = 0;
        while j < nodes.len() && nodes[j].node_id != id
            invariant
                j <= nodes@.len(),
                forall|i: int| 0 <= i < j ==> (#[trigger] nodes@[i]).node_id != id,
            decreases nodes@.len() - j,
        {
            j = j + 1;
        }
        if j < nodes.len() {
            let old_totals = nodes[j];
            proof {
                assert(node_order(p)[j as int] == id);
                assert(node_order(p).contains(id));
                assert(node_order(p2) == node_order(p));
                lemma_sum_on_prefix(s, id, point_weight(), k + 1);
                lemma_sum_on_prefix(s, id, disk_weight(), k + 1);
                lemma_sum_on_prefix(s, id, unit_weight(), k + 1);
                assert(sum_on(p2, id, point_weight()) == sum_on(p, id, point_weight()) + shard.point_count);
                assert(sum_on(p2, id, disk_weight()) == sum_on(p, id, disk_weight()) + shard.disk_usage_bytes);
                assert(sum_on(p2, id, unit_weight()) == sum_on(p, id, unit_weight()) + 1);
                assert(points_on(s, id) <= usize::MAX);
                assert(disk_on(s, id) <= u64::MAX);
                assert(sum_on(p2, id, unit_weight()) <= p2.len()) by {
                    lemma_count_on_bounded(p2, id);
                }
            }
            let updated = NodeTotals {
                node_id: id,
                total_points: old_totals.total_points + shard.point_count,
                total_disk_bytes: old_totals.total_disk_bytes + shard.disk_usage_bytes,
                shard_count: old_totals.shard_count + 1,
            };
            nodes.set(j, updated);
            node_of.push(j);
            proof {
                assert forall|i: int| 0 <= i < nodes@.len() implies {
                    let n = #[trigger] nodes@[i];
                    &&& n.node_id == node_order(p2)[i]
                    &&& n.total_points == points_on(p2, n.node_id)
                    &&& n.total_disk_bytes == disk_on(p2, n.node_id)
                    &&& n.shard_count == count_on(p2, n.node_id)
                } by {
                    if i != j {
                        assert(node_order(p)[i] != node_order(p)[j as int]);
                    }
                }
            }
        } else {
            proof {
                assert forall|i: int| 0 <= i < node_order(p).len() implies node_order(p)[i] != id by {
                    assert(nodes@[i].node_id == node_order(p)[i]);
                }
                assert(!node_order(p).contains(id));
                assert(node_order(p2) == node_order(p).push(id));
                lemma_sum_on_prefix(s, id, point_weight(), k + 1);
                lemma_sum_on_prefix(s, id, disk_weight(), k + 1);
                lemma_count_on_bounded(p2, id);
                assert(points_on(s, id) <= usize::MAX);
                assert(disk_on(s, id) <= u64::MAX);
                lemma_sum_on_absent(p, id, point_weight());
                lemma_sum_on_absent(p, id, disk_weight());
                lemma_sum_on_absent(p, id, unit_weight());
            }
            nodes.push(
                NodeTotals {
                    node_id: id,
                    total_points: shard.point_count,
                    total_disk_bytes: shard.disk_usage_bytes,
                    shard_count: 1,
                },
            );
            node_of.push(j);
            proof {
                assert forall|i: int| 0 <= i < nodes@.len() implies {
                    let n = #[trigger] nodes@[i];
                    &&& n.node_id == node_order(p2)[i]
                    &&& n.total_points == points_on(p2, n.node_id)
                    &&& n.total_disk_bytes == disk_on(p2, n.node_id)
                    &&& n.shard_count == count_on(p2, n.node_id)
                } by {
                    if i < j {
                        assert(node_order(p)[i] != id);
                    }
                }
            }
        }
        k = k + 1;
    }
    assert(s.subrange(0, s.len() as int) =~= s);
    NodeAggregation { nodes, node_of }
}

/// A node that holds no shard in `s` has nothing summed up.
proof fn lemma_sum_on_absent(s: Seq<ShardPlacement>, node: u64, f: spec_fn(ShardPlacement) -> int)
    requires
        !node_order(s).contains(node),
    ensures
        sum_on(s, node, f) == 0,
    decreases s.len(),
{
    if s.len() > 0 {
        let d = s.drop_last();
        if node_order(d).contains(node) {
            assert(node_order(s).contains(node)) by {
                let i = choose|i: int| 0 <= i < node_order(d).len() && node_order(d)[i] == node;
                assert(node_order(s)[i] == node);
            }
        }
        if s.last().node_id == node {
            lemma_node_order(s);
            assert(s[s.len() - 1].node_id == node);
        }
        lemma_sum_on_absent(d, node, f);
    }
}

/// A node holds at most as many shards as there are.
proof fn lemma_count_on_bounded(s: Seq<ShardPlacement>, node: u64)
    ensures
        0 <= count_on(s, node) <= s.len(),
    decreases s.len(),
{
    if s.len() > 0 {
        lemma_count_on_bounded(s.drop_last(), node);
    }
}

/// Sum of the shard counts of `nodes`.
pub open spec fn shards_counted(s: Seq<ShardPlacement>, nodes: Seq<u64>) -> int
    decreases nodes.len(),
{
    if nodes.len() == 0 {
        0
    } else {
        shards_counted(s, nodes.drop_last()) + count_on(s, nodes.last())
    }
}

/// How often `v` occurs in `nodes`.
spec fn occurrences(nodes: Seq<u64>, v: u64) -> int
    decreases nodes.len(),
{
    if nodes.len() == 0 {
        0
    } else {
        occurrences(nodes.drop_last(), v) + if nodes.last() == v {
            1int
        } else {
            0int
        }
    }
}

proof fn lemma_occurrences(nodes: Seq<u64>, v: u64)
    requires
        nodes.no_duplicates(),
    ensures
        occurrences(nodes, v) == if nodes.contains(v) {
            1int
        } else {
            0int
        },
    decreases nodes.len(),
{
    if nodes.len() > 0 {
        let m = nodes.drop_last();
        assert(m.no_duplicates()) by {
            assert forall|i: int, j: int| 0 <= i < m.len() && 0 <= j < m.len() && i != j implies m[i]
                != m[j] by {
                assert(m[i] == nodes[i] && m[j] == nodes[j]);
            }
        }
        lemma_occurrences(m, v);
        if nodes.last() == v {
            if m.contains(v) {
                let k = choose|k: int| 0 <= k < m.len() && m[k] == v;
                assert(nodes[k] == nodes[nodes.len() - 1]);
            }
            assert(nodes[nodes.len() - 1] == v);
        } else {
            if nodes.contains(v) {
                let k = choose|k: int| 0 <= k < nodes.len() && nodes[k] == v;
                assert(m[k] == v);
            }
            if m.contains(v) {
                let k = choose|k: int| 0 <= k < m.len() && m[k] == v;
                assert(nodes[k] == v);
            }
        }
    }
}

/// Adding a shard on node `x` to the shards adds one to the counts of
/// `nodes` for each time `x` occurs among them.
proof fn lemma_shards_counted_push(d: Seq<ShardPlacement>, p: ShardPlacement, nodes: Seq<u64>)
    ensures
        shards_counted(d.push(p), nodes) == shards_counted(d, nodes) + occurrences(nodes, p.node_id),
    decreases nodes.len(),
{
    if nodes.len() > 0 {
        lemma_shards_counted_push(d, p, nodes.drop_last());
        assert(d.push(p).drop_last() =~= d);
    }
}

/// Grouping by node counts every shard exactly once: the shard counts of
/// all nodes add up to the number of shards.
pub proof fn lemma_every_shard_counted_once(s: Seq<ShardPlacement>)
    ensures
        shards_counted(s, node_order(s)) == s.len(),
    decreases s.len(),
{
    if s.len() > 0 {
        let d = s.drop_last();
        let p = s.last();
        assert(d.push(p) =~= s);
        lemma_every_shard_counted_once(d);
        lemma_node_order(d);
        lemma_node_order(s);
        lemma_shards_counted_push(d, p, node_order(s));
        lemma_occurrences(node_order(s), p.node_id);
        assert(node_order(s).contains(s[s.len() - 1].node_id));
        if !node_order(d).contains(p.node_id) {
            let od = node_order(d);
            assert(node_order(s) == od.push(p.node_id));
            assert(od.push(p.node_id).drop_last() =~= od);
            lemma_sum_on_absent(d, p.node_id, unit_weight());
            lemma_shards_counted_push(d, p, od);
            lemma_occurrences(od, p.node_id);
            assert(count_on(s, p.node_id) == count_on(d, p.node_id) + 1);
            assert(shards_counted(s, node_order(s)) == shards_counted(s, od) + count_on(s, p.node_id));
        } else {
            assert(node_order(s) == node_order(d));
        }
    }
}

/// The first shard on `node`.
fn find_first_shard_on(shards: &Vec<ShardPlacement>, node: u64) -> (r: Option<u32>)
    ensures
        r == first_shard_on(shards@, node, 0),
{
    let mut i: usize = 0;
    while i < shards.len()
        invariant
            i <= shards.len(),
            first_shard_on(shards@, node, 0) == first_shard_on(shards@, node, i as int),
        decreases shards.len() - i,
    {
        if shards[i].node_id == node {
            return Some(shards[i].shard_id);
        }
        i = i + 1;
    }
    None
}

/// Whether a move takes the first shard of an overloaded node to `target`.
pub open spec fn is_load_move(s: Seq<ShardPlacement>, over: Seq<u64>, target: u64, m: ShardMove) -> bool {
    &&& over.contains(m.from_node)
    &&& m.to_node == target
    &&& first_shard_on(s, m.from_node, 0) == Some(m.shard_id)
    &&& m.reason == RebalanceReason::LoadImbalance
}

proof fn lemma_load_moves_from(
    s: Seq<ShardPlacement>,
    over: Seq<u64>,
    target: u64,
    i: int,
    acc: Seq<ShardMove>,
)
    requires
        0 <= i,
        acc.len() < MAX_MOVES_PER_PLAN,
        forall|k: int| 0 <= k < acc.len() ==> is_load_move(s, over, target, #[trigger] acc[k]),
    ensures
        load_moves_from(s, over, target, i, acc).len() <= MAX_MOVES_PER_PLAN,
        forall|k: int|
            0 <= k < load_moves_from(s, over, target, i, acc).len() ==> is_load_move(
                s,
                over,
                target,
                #[trigger] load_moves_from(s, over, target, i, acc)[k],
            ),
    decreases over.len() - i,
{
    if i < over.len() {
        match first_shard_on(s, over[i], 0) {
            Some(shard_id) => {
                let m = ShardMove {
                    shard_id,
                    from_node: over[i],
                    to_node: target,
                    reason: RebalanceReason::LoadImbalance,
                };
                let next = acc.push(m);
                assert(over.contains(over[i]));
                assert(is_load_move(s, over, target, m));
                assert forall|k: int| 0 <= k < next.len() implies is_load_move(s, over, target, #[trigger] next[k]) by {
                    if k < acc.len() {
                        assert(next[k] == acc[k]);
                    }
                }
                if next.len() < MAX_MOVES_PER_PLAN {
                    lemma_load_moves_from(s, over, target, i + 1, next);
                }
            },
            None => {
                lemma_load_moves_from(s, over, target, i + 1, acc);
            },
        }
    }
}

/// A load rebalancing plan makes at most five moves; each takes the first
/// shard of an overloaded node to the first underloaded node; and with no
/// underloaded node nothing moves.
pub proof fn lemma_load_moves_sound(s: Seq<ShardPlacement>, over: Seq<u64>, under: Seq<u64>)
    ensures
        load_moves(s, over, under).len() <= MAX_MOVES_PER_PLAN,
        under.len() == 0 ==> load_moves(s, over, under).len() == 0,
        under.len() > 0 ==> forall|k: int|
            0 <= k < load_moves(s, over, under).len() ==> is_load_move(
                s,
                over,
                under[0],
                #[trigger] load_moves(s, over, under)[k],
            ),
{
    if under.len() > 0 {
        lemma_load_moves_from(s, over, under[0], 0, Seq::empty());
    }
}

/// The overloaded nodes, in the given order, that hold at least one shard.
pub open spec fn shard_holders(s: Seq<ShardPlacement>, over: Seq<u64>) -> Seq<u64>
    decreases over.len(),
{
    if over.len() == 0 {
        Seq::empty()
    } else if first_shard_on(s, over.last(), 0) is Some {
        shard_holders(s, over.drop_last()).push(over.last())
    } else {
        shard_holders(s, over.drop_last())
    }
}

/// The holders among the first `j` overloaded nodes come first among all
/// holders.
proof fn lemma_shard_holders_prefix(s: Seq<ShardPlacement>, over: Seq<u64>, j: int)
    requires
        0 <= j <= over.len(),
    ensures
        shard_holders(s, over.take(j)).len() <= shard_holders(s, over).len(),
        forall|k: int|
            0 <= k < shard_holders(s, over.take(j)).len() ==> #[trigger] shard_holders(s, over)[k]
                == shard_holders(s, over.take(j))[k],
    decreases over.len(),
{
    if j == over.len() {
        assert(over.take(j) =~= over);
    } else {
        let d = over.drop_last();
        assert(d.take(j) =~= over.take(j));
        lemma_shard_holders_prefix(s, d, j);
    }
}

proof fn lemma_load_moves_from_complete(
    s: Seq<ShardPlacement>,
    over: Seq<u64>,
    target: u64,
    i: int,
    acc: Seq<ShardMove>,
)
    requires
        0 <= i <= over.len(),
        acc.len() < MAX_MOVES_PER_PLAN,
        acc.len() == shard_holders(s, over.take(i)).len(),
        forall|k: int|
            0 <= k < acc.len() ==> (#[trigger] acc[k]).from_node == shard_holders(s, over.take(i))[k]
                && acc[k].to_node == target && first_shard_on(s, acc[k].from_node, 0) == Some(
                acc[k].shard_id,
            ),
    ensures
        load_moves_from(s, over, target, i, acc).len() == if shard_holders(s, over).len()
            < MAX_MOVES_PER_PLAN {
            shard_holders(s, over).len() as int
        } else {
            MAX_MOVES_PER_PLAN as int
        },
        forall|k: int|
            0 <= k < load_moves_from(s, over, target, i, acc).len() ==> (#[trigger] load_moves_from(
                s,
                over,
                target,
                i,
                acc,
            )[k]).from_node == shard_holders(s, over)[k] && load_moves_from(s, over, target, i, acc)[k].to_node
                == target && first_shard_on(s, shard_holders(s, over)[k], 0) == Some(
                load_moves_from(s, over, target, i, acc)[k].shard_id,
            ),
    decreases over.len() - i,
{
    let hi = shard_holders(s, over.take(i));
    lemma_shard_holders_prefix(s, over, i);
    if i == over.len() {
        assert(over.take(i) =~= over);
    } else {
        let next_take = over.take(i + 1);
        assert(next_take.drop_last() =~= over.take(i));
        assert(next_take.last() == over[i]);
        let hn = shard_holders(s, next_take);
        lemma_shard_holders_prefix(s, over, i + 1);
        match first_shard_on(s, over[i], 0) {
            Some(shard_id) => {
                let m = ShardMove {
                    shard_id,
                    from_node: over[i],
                    to_node: target,
                    reason: RebalanceReason::LoadImbalance,
                };
                let next = acc.push(m);
                assert(hn == hi.push(over[i]));
                assert forall|k: int| 0 <= k < next.len() implies (#[trigger] next[k]).from_node
                    == hn[k] && next[k].to_node == target && first_shard_on(
                    s,
                    next[k].from_node,
                    0,
                ) == Some(next[k].shard_id) by {
                    if k < acc.len() {
                        assert(next[k] == acc[k]);
                    }
                }
                if next.len() >= MAX_MOVES_PER_PLAN {
                    assert(load_moves_from(s, over, target, i, acc) == next);
                } else {
                    lemma_load_moves_from_complete(s, over, target, i + 1, next);
                }
            },
            None => {
                assert(hn == hi);
                lemma_load_moves_from_complete(s, over, target, i + 1, acc);
            },
        }
    }
}

/// A load plan is complete and in order: with an underloaded node, it
/// makes one move for each overloaded node that holds a shard, in the
/// given order, up to five moves; the k-th move takes the first shard of
/// the k-th such node to the first underloaded node.
pub proof fn lemma_load_moves_complete(s: Seq<ShardPlacement>, over: Seq<u64>, under: Seq<u64>)
    requires
        under.len() > 0,
    ensures
        load_moves(s, over, under).len() == if shard_holders(s, over).len() < MAX_MOVES_PER_PLAN {
            shard_holders(s, over).len() as int
        } else {
            MAX_MOVES_PER_PLAN as int
        },
        forall|k: int|
            0 <= k < load_moves(s, over, under).len() ==> (#[trigger] load_moves(s, over, under)[k]).from_node
                == shard_holders(s, over)[k] && load_moves(s, over, under)[k].to_node == under[0]
                && first_shard_on(s, shard_holders(s, over)[k], 0) == Some(
                load_moves(s, over, under)[k].shard_id,
            ),
{
    assert(over.take(0) =~= Seq::<u64>::empty());
    lemma_load_moves_from_complete(s, over, under[0], 0, Seq::empty());
}

/// Plans load moves: for each overloaded node in the given order, its first
/// shard moves to the first underloaded node, at most five moves in all;
/// nothing moves when no node is underloaded.
pub fn plan_load_moves(shards: &Vec<ShardPlacement>, overloaded: &Vec<u64>, underloaded: &Vec<u64>) -> (moves: Vec<ShardMove>)
    ensures
        moves@ == load_moves(shards@, overloaded@, underloaded@),
{
    let mut moves: Vec<ShardMove> = Vec::new();
    if underloaded.len() == 0 {
        return moves;
    }
    let target = underloaded[0];
    let mut i: usize = 0;
    while i < overloaded.len()
        invariant
            i <= overloaded.len(),
            underloaded@.len() > 0,
            target == underloaded@[0],
            moves@.len() < MAX_MOVES_PER_PLAN,
            load_moves(shards@, overloaded@, underloaded@) == load_moves_from(
                shards@,
                overloaded@,
                target,
                i as int,
                moves@,
            ),
        decreases overloaded.len() - i,
    {
        let from = overloaded[i];
        match find_first_shard_on(shards, from) {
            Some(shard_id) => {
                moves.push(
                    ShardMove {
                        shard_id,
                        from_node: from,
                        to_node: target,
                        reason: RebalanceReason::LoadImbalance,
                    },
                );
                if moves.len() >= MAX_MOVES_PER_PLAN {
                    return moves;
                }
            },
            None => {},
        }
        i = i + 1;
    }
    moves
}

/// Seconds that carrying out the moves is expected to take: five minutes
/// per move.
pub fn estimated_duration_secs(moves: &Vec<ShardMove>) -> (secs: u64)
    requires
        moves@.len() * SECONDS_PER_MOVE <= u64::MAX,
    ensures
        secs == moves@.len() * SECONDS_PER_MOVE,
{
    (moves.len() as u64) * SECONDS_PER_MOVE
}

/// Disk usage of the first shard with id `shard_id`.
fn find_first_disk_of_shard(shards: &Vec<ShardPlacement>, shard_id: u32) -> (r: Option<u64>)
    ensures
        r == first_disk_of_shard(shards@, shard_id, 0),
{
    let mut i: usize = 0;
    while i < shards.len()
        invariant
            i <= shards.len(),
            first_disk_of_shard(shards@, shard_id, 0) == first_disk_of_shard(shards@, shard_id, i as int),
        decreases shards.len() - i,
    {
        if shards[i].shard_id == shard_id {
            return Some(shards[i].disk_usage_bytes);
        }
        i = i + 1;
    }
    None
}

/// For each move, the disk usage of the first shard with its id, if any.
pub fn moved_bytes(moves: &Vec<ShardMove>, shards: &Vec<ShardPlacement>) -> (bytes: Vec<Option<u64>>)
    ensures
        bytes@.len() == moves@.len(),
        forall|m: int|
            0 <= m < moves@.len() ==> #[trigger] bytes@[m] == first_disk_of_shard(
                shards@,
                moves@[m].shard_id,
                0,
            ),
{
    let mut bytes: Vec<Option<u64>> = Vec::new();
    let mut m: usize = 0;
    while m < moves.len()
        invariant
            m <= moves.len(),
            bytes@.len() == m,
            forall|x: int|
                0 <= x < m ==> #[trigger] bytes@[x] == first_disk_of_shard(
                    shards@,
                    moves@[x].shard_id,
                    0,
                ),
        decreases moves.len() - m,
    {
        let found = find_first_disk_of_shard(shards, moves[m].shard_id);
        bytes.push(found);
        m = m + 1;
    }
    bytes
}

} // verus!
