//! Topology of the processing graph: node identifiers, connections between
//! ports, the order in which nodes are processed, and the routing a
//! processing pass reads from it (which connections feed a port, which node
//! gives the graph's output).
//!
//! The order is computed with Kahn's algorithm: a node is scheduled once every
//! node that feeds it has been scheduled; nodes on a cycle are appended at the
//! end in identifier order.
use vstd::prelude::*;

pub mod processor;
pub mod utils;

verus! {

/// Node identifier.
#[derive(Debug, Clone, Copy, PartialEq, Eq, Hash, Structural)]
pub struct NodeId(pub u32);

/// Port identifier: a node, a port index on that node, and its direction.
#[derive(Debug, Clone, Copy, PartialEq, Eq, Hash, Structural)]
pub struct PortId {
    /// The node that owns the port.
    pub node: NodeId,
    /// Index of the port on its node.
    pub index: u8,
    /// `true` for an input port, `false` for an output port.
    pub is_input: bool,
}

/// Connection from an output port to an input port.
///
/// The gain is carried as the bit pattern of the `f32` gain applied to the
/// signal; the topology never reads it.
#[derive(Debug, Clone, Copy, PartialEq, Eq, Structural)]
pub struct Connection {
    /// Output port of the source node.
    pub from: PortId,
    /// Input port of the destination node.
    pub to: PortId,
    /// Bit pattern of the connection gain.
    pub gain_bits: u32,
}

/// Reasons for which a connection is refused.
#[derive(Debug, Clone, Copy, PartialEq, Eq, Structural)]
pub enum GraphError {
    /// One of the two ports belongs to a node that is not in the graph.
    InvalidNodeId,
    /// The source is not an output port or the destination is not an input port.
    InvalidDirection,
}

impl GraphError {
    /// The message of this error.
    pub fn message(&self) -> (r: &'static str)
        ensures
            r@ == graph_error_message(*self),
    {
        match self {
            GraphError::InvalidNodeId => "Invalid node ID",
            GraphError::InvalidDirection => "Invalid connection direction",
        }
    }
}

/// The message of each graph error.
pub open spec fn graph_error_message(e: GraphError) -> Seq<char> {
    match e {
        GraphError::InvalidNodeId => "Invalid node ID"@,
        GraphError::InvalidDirection => "Invalid connection direction"@,
    }
}

/// Source node of a connection.
pub open spec fn conn_src(c: Connection) -> int {
    c.from.node.0 as int
}

/// Destination node of a connection.
pub open spec fn conn_dst(c: Connection) -> int {
    c.to.node.0 as int
}

/// The connections that end at input port `port`.
pub open spec fn feeds(port: PortId) -> spec_fn(Connection) -> bool {
    |c: Connection| c.to == port
}

/// No connection leaves one of the output ports `0..num_outputs` of `node`.
pub open spec fn is_sink(conns: Seq<Connection>, node: NodeId, num_outputs: int) -> bool {
    forall|k: int|
        0 <= k < conns.len() ==> !((#[trigger] conns[k]).from.node == node && !conns[k].from.is_input
            && (conns[k].from.index as int) < num_outputs)
}

/// The node whose outputs leave the graph, given the number of outputs of
/// each node: the first node of `order` that is a sink, or else the last node
/// of `order`.
pub open spec fn is_output_choice(
    r: Option<NodeId>,
    order: Seq<NodeId>,
    conns: Seq<Connection>,
    num_outputs: Seq<usize>,
) -> bool {
    match r {
        Some(id) => exists|i: int|
            0 <= i < order.len() && #[trigger] order[i] == id && (is_sink(
                conns,
                order[i],
                num_outputs[order[i].0 as int] as int,
            ) || i == order.len() - 1) && forall|j: int|
                0 <= j < i ==> !is_sink(
                    conns,
                    #[trigger] order[j],
                    num_outputs[order[j].0 as int] as int,
                ),
        None => order.len() == 0,
    }
}

/// A connection made to a port joins the end of that port's feeds, and the
/// feeds of every other port stay as they were.
pub proof fn law_connect_feeds_port(conns: Seq<Connection>, c: Connection, port: PortId)
    ensures
        conns.push(c).filter(feeds(port)) == if c.to == port {
            conns.filter(feeds(port)).push(c)
        } else {
            conns.filter(feeds(port))
        },
{
    reveal(Seq::filter);
    assert(conns.push(c).drop_last() == conns);
}

/// Every connection joins two of the nodes `0..n`.
pub open spec fn connections_in_range(conns: Seq<Connection>, n: int) -> bool {
    forall|k: int|
        0 <= k < conns.len() ==> 0 <= conn_src(#[trigger] conns[k]) < n && 0 <= conn_dst(conns[k])
            < n
}

/// The connections admit a ranking of the nodes that every connection
/// strictly increases: the graph has no cycle.
pub open spec fn is_acyclic(conns: Seq<Connection>) -> bool {
    exists|rank: spec_fn(int) -> int| #[trigger] ranks_connections(rank, conns)
}

/// Every connection leads from a node of smaller rank to a node of larger rank.
pub open spec fn ranks_connections(rank: spec_fn(int) -> int, conns: Seq<Connection>) -> bool {
    forall|k: int|
        0 <= k < conns.len() ==> rank(conn_src(#[trigger] conns[k])) < rank(conn_dst(conns[k]))
}

/// `order` holds each of the nodes `0..n` exactly once.
pub open spec fn is_node_permutation(order: Seq<NodeId>, n: int) -> bool {
    &&& order.no_duplicates()
    &&& forall|i: int| 0 <= i < order.len() ==> (#[trigger] order[i]).0 < n
    &&& forall|id: u32| id < n ==> #[trigger] order.contains(NodeId(id))
}

/// Every connection goes from a node placed earlier to a node placed later.
pub open spec fn respects_connections(order: Seq<NodeId>, conns: Seq<Connection>) -> bool {
    forall|k: int, i: int, j: int|
        0 <= k < conns.len() && 0 <= i < order.len() && 0 <= j < order.len() && (
        #[trigger] order[i]).0 == conn_src(#[trigger] conns[k]) && (#[trigger] order[j]).0
            == conn_dst(conns[k]) ==> i < j
}

/// Every connection into one of the first `k` nodes of `order` comes from
/// a node placed before it.
pub open spec fn respects_connections_into(
    order: Seq<NodeId>,
    conns: Seq<Connection>,
    k: int,
) -> bool {
    forall|kk: int, i: int, j: int|
        0 <= kk < conns.len() && 0 <= i < order.len() && 0 <= j < k && (
        #[trigger] order[i]).0 == conn_src(#[trigger] conns[kk]) && (#[trigger] order[j]).0
            == conn_dst(conns[kk]) ==> i < j
}

/// The node at position `j` is fed by a connection from a node placed at
/// position `k` or later.
pub open spec fn fed_from_position(order: Seq<NodeId>, conns: Seq<Connection>, k: int, j: int) -> bool {
    exists|kk: int, i: int|
        #![trigger conns[kk], order[i]]
        0 <= kk < conns.len() && k <= i < order.len() && conn_dst(conns[kk]) == order[j].0
            && conn_src(conns[kk]) == order[i].0
}

/// Every node from position `k` on is fed by a connection from a node that
/// is also placed from position `k` on.
pub open spec fn fed_from_rest(order: Seq<NodeId>, conns: Seq<Connection>, k: int) -> bool {
    forall|j: int| k <= j < order.len() ==> #[trigger] fed_from_position(order, conns, k, j)
}

/// The nodes from position `k` on come in increasing identifier order.
pub open spec fn rest_in_id_order(order: Seq<NodeId>, k: int) -> bool {
    forall|a: int, b: int|
        k <= a < b < order.len() ==> (#[trigger] order[a]).0 < (#[trigger] order[b]).0
}

/// `order` splits at `k` into the nodes that are neither on nor behind a
/// cycle, in an order where each comes after every node feeding it, and the
/// nodes on or behind a cycle after them, in identifier order.
///
/// The split says so without naming cycles: the first part is closed under
/// feeding and ordered along the connections, so it holds no cycle and
/// nothing behind one; each node of the second part is fed from the second
/// part, so following its feeds backwards stays there and, the part being
/// finite, runs into a cycle.
pub open spec fn is_cycle_split(order: Seq<NodeId>, conns: Seq<Connection>, k: int) -> bool {
    &&& 0 <= k <= order.len()
    &&& respects_connections_into(order, conns, k)
    &&& fed_from_rest(order, conns, k)
    &&& rest_in_id_order(order, k)
}

/// What a processing order of the nodes `0..n` must satisfy: it is a
/// permutation of the nodes; the nodes neither on nor behind a cycle come
/// first, each after the nodes feeding it, followed by the others in
/// identifier order; and the whole order follows the connections whenever
/// they form no cycle.
pub open spec fn is_processing_order(order: Seq<NodeId>, n: int, conns: Seq<Connection>) -> bool {
    &&& is_node_permutation(order, n)
    &&& exists|k: int| #[trigger] is_cycle_split(order, conns, k)
    &&& is_acyclic(conns) ==> respects_connections(order, conns)
}

/// Number of connections among the first `m` whose destination is `v` and
/// whose source is not yet scheduled.
pub open spec fn in_count(conns: Seq<Connection>, v: int, done: Seq<bool>, m: int) -> nat
    decreases m,
{
    if m <= 0 {
        0
    } else {
        in_count(conns, v, done, m - 1) + if conn_dst(conns[m - 1]) == v && !done[conn_src(
            conns[m - 1],
        )] {
            1nat
        } else {
            0nat
        }
    }
}

/// Number of connections among the first `m` from `u` to `v`.
pub open spec fn pair_count(conns: Seq<Connection>, u: int, v: int, m: int) -> nat
    decreases m,
{
    if m <= 0 {
        0
    } else {
        pair_count(conns, u, v, m - 1) + if conn_src(conns[m - 1]) == u && conn_dst(conns[m - 1])
            == v {
            1nat
        } else {
            0nat
        }
    }
}

/// Number of nodes not yet placed in the queue (negative position).
pub open spec fn count_unqueued(pos: Seq<int>) -> nat
    decreases pos.len(),
{
    if pos.len() == 0 {
        0
    } else {
        count_unqueued(pos.drop_last()) + if pos.last() < 0 {
            1nat
        } else {
            0nat
        }
    }
}

proof fn lemma_count_unqueued_update(pos: Seq<int>, v: int, p: int)
    requires
        0 <= v < pos.len(),
        pos[v] < 0,
        p >= 0,
    ensures
        count_unqueued(pos.update(v, p)) + 1 == count_unqueued(pos),
    decreases pos.len(),
{
    let t = pos.update(v, p);
    if v == pos.len() - 1 {
        assert(t.drop_last() =~= pos.drop_last());
    } else {
        assert(t.drop_last() =~= pos.drop_last().update(v, p));
        lemma_count_unqueued_update(pos.drop_last(), v, p);
    }
}

proof fn lemma_in_count_bound(conns: Seq<Connection>, v: int, done: Seq<bool>, m: int)
    requires
        0 <= m <= conns.len(),
    ensures
        in_count(conns, v, done, m) <= m,
    decreases m,
{
    if m > 0 {
        lemma_in_count_bound(conns, v, done, m - 1);
    }
}

/// Scheduling `u` removes exactly the connections from `u` from the count.
proof fn lemma_in_count_schedule(conns: Seq<Connection>, v: int, done: Seq<bool>, u: int, m: int)
    requires
        0 <= m <= conns.len(),
        0 <= u < done.len(),
        !done[u],
        connections_in_range(conns, done.len() as int),
    ensures
        in_count(conns, v, done.update(u, true), m) + pair_count(conns, u, v, m) == in_count(
            conns,
            v,
            done,
            m,
        ),
    decreases m,
{
    if m > 0 {
        lemma_in_count_schedule(conns, v, done, u, m - 1);
        let c = conns[m - 1];
        assert(0 <= conn_src(c) < done.len());
    }
}

/// The connections from an unscheduled `u` to `v` are among those counted.
proof fn lemma_pair_le_in(conns: Seq<Connection>, v: int, done: Seq<bool>, u: int, m: int)
    requires
        0 <= m <= conns.len(),
        0 <= u < done.len(),
        !done[u],
    ensures
        pair_count(conns, u, v, m) <= in_count(conns, v, done, m),
    decreases m,
{
    if m > 0 {
        lemma_pair_le_in(conns, v, done, u, m - 1);
    }
}

proof fn lemma_pair_monotone(conns: Seq<Connection>, u: int, v: int, a: int, b: int)
    requires
        0 <= a <= b <= conns.len(),
    ensures
        pair_count(conns, u, v, a) <= pair_count(conns, u, v, b),
    decreases b - a,
{
    if a < b {
        lemma_pair_monotone(conns, u, v, a, b - 1);
    }
}

/// A zero count means every connection into `v` has a scheduled source.
proof fn lemma_in_count_zero(conns: Seq<Connection>, v: int, done: Seq<bool>, m: int)
    requires
        0 <= m <= conns.len(),
        in_count(conns, v, done, m) == 0,
    ensures
        forall|k: int| 0 <= k < m && conn_dst(#[trigger] conns[k]) == v ==> done[conn_src(conns[k])],
    decreases m,
{
    if m > 0 {
        lemma_in_count_zero(conns, v, done, m - 1);
    }
}

/// If every connection into `v` has a scheduled source, the count is zero.
proof fn lemma_in_count_zero_rev(conns: Seq<Connection>, v: int, done: Seq<bool>, m: int)
    requires
        0 <= m <= conns.len(),
        forall|k: int| 0 <= k < m && conn_dst(#[trigger] conns[k]) == v ==> done[conn_src(conns[k])],
    ensures
        in_count(conns, v, done, m) == 0,
    decreases m,
{
    if m > 0 {
        lemma_in_count_zero_rev(conns, v, done, m - 1);
    }
}

/// A positive count means some connection into `v` has an unscheduled
/// source.
proof fn lemma_in_count_pos(conns: Seq<Connection>, v: int, done: Seq<bool>, m: int) -> (k: int)
    requires
        0 <= m <= conns.len(),
        in_count(conns, v, done, m) > 0,
    ensures
        0 <= k < m,
        conn_dst(conns[k]) == v,
        !done[conn_src(conns[k])],
    decreases m,
{
    if in_count(conns, v, done, m - 1) > 0 {
        lemma_in_count_pos(conns, v, done, m - 1)
    } else {
        m - 1
    }
}

/// Among the unscheduled nodes below `hi`, one has the least rank.
proof fn lemma_min_rank(done: Seq<bool>, rank: spec_fn(int) -> int, hi: int, w: int) -> (m: int)
    requires
        0 <= w < hi <= done.len(),
        !done[w],
    ensures
        0 <= m < hi,
        !done[m],
        forall|x: int| 0 <= x < hi && !done[x] ==> rank(m) <= rank(x),
    decreases hi,
{
    if hi == w + 1 {
        if exists|x: int| 0 <= x < w && !done[x] {
            let x = choose|x: int| 0 <= x < w && !done[x];
            let m0 = lemma_min_rank(done, rank, w, x);
            if rank(w) < rank(m0) {
                w
            } else {
                m0
            }
        } else {
            w
        }
    } else {
        let m0 = lemma_min_rank(done, rank, hi - 1, w);
        if !done[hi - 1] && rank(hi - 1) < rank(m0) {
            hi - 1
        } else {
            m0
        }
    }
}

/// Some connection into `w` comes from a node not yet scheduled.
pub open spec fn has_unscheduled_feed(conns: Seq<Connection>, done: Seq<bool>, w: int) -> bool {
    exists|kk: int|
        0 <= kk < conns.len() && conn_dst(#[trigger] conns[kk]) == w && !done[conn_src(conns[kk])]
}

/// The scheduled nodes, placed first, each come after the nodes feeding
/// them.
proof fn lemma_first_part_ordered(
    order: Seq<NodeId>,
    conns: Seq<Connection>,
    done: Seq<bool>,
    pos: Seq<int>,
    opos: Seq<int>,
    gh: int,
    n: int,
)
    requires
        0 <= gh <= order.len(),
        done.len() == n,
        pos.len() == n,
        opos.len() == n,
        connections_in_range(conns, n),
        forall|j: int| 0 <= j < gh ==> done[(#[trigger] order[j]).0 as int],
        forall|j: int|
            0 <= j < order.len() ==> (#[trigger] order[j]).0 < n && opos[order[j].0 as int] == j,
        forall|w: int| 0 <= w < n && #[trigger] done[w] ==> opos[w] == pos[w],
        forall|kk: int|
            0 <= kk < conns.len() && done[conn_dst(#[trigger] conns[kk])] ==> done[conn_src(
                conns[kk],
            )],
        forall|kk: int|
            0 <= kk < conns.len() && 0 <= #[trigger] pos[conn_dst(conns[kk])] < gh ==> 0 <= pos[conn_src(
                conns[kk],
            )] < pos[conn_dst(conns[kk])],
        forall|w: int| 0 <= w < n && #[trigger] done[w] ==> 0 <= pos[w] < gh,
    ensures
        respects_connections_into(order, conns, gh),
{
    assert forall|kk: int, i: int, j: int|
        0 <= kk < conns.len() && 0 <= i < order.len() && 0 <= j < gh && (
        #[trigger] order[i]).0 == conn_src(#[trigger] conns[kk]) && (#[trigger] order[j]).0
            == conn_dst(conns[kk]) implies i < j by {
        let src = conn_src(conns[kk]);
        let d = conn_dst(conns[kk]);
        assert(done[d]);
        assert(done[src]);
        assert(opos[src] == i);
        assert(opos[d] == j);
    }
}

/// Every node that was never scheduled, placed from `gh` on, is fed by
/// another such node.
proof fn lemma_rest_is_fed(
    order: Seq<NodeId>,
    conns: Seq<Connection>,
    done: Seq<bool>,
    opos: Seq<int>,
    gh: int,
    n: int,
)
    requires
        done.len() == n,
        opos.len() == n,
        0 <= gh <= order.len(),
        connections_in_range(conns, n),
        forall|j: int| 0 <= j < gh ==> done[(#[trigger] order[j]).0 as int],
        forall|j: int|
            gh <= j < order.len() ==> (#[trigger] order[j]).0 < n && !done[order[j].0 as int],
        forall|w: int|
            0 <= w < n ==> 0 <= #[trigger] opos[w] < order.len() && order[opos[w]].0 == w,
        forall|w: int| 0 <= w < n && !done[w] ==> #[trigger] has_unscheduled_feed(conns, done, w),
    ensures
        fed_from_rest(order, conns, gh),
{
    assert forall|j: int| gh <= j < order.len() implies #[trigger] fed_from_position(
        order,
        conns,
        gh,
        j,
    ) by {
        let w = order[j].0 as int;
        assert(!done[w]);
        assert(has_unscheduled_feed(conns, done, w));
        let kk = choose|kk: int|
            0 <= kk < conns.len() && conn_dst(#[trigger] conns[kk]) == w && !done[conn_src(
                conns[kk],
            )];
        let src = conn_src(conns[kk]);
        assert(0 <= src < n);
        let i = opos[src];
        assert(0 <= i < order.len() && order[i].0 == src);
        if i < gh {
            assert(done[order[i].0 as int]);
        }
        assert(conn_dst(conns[kk]) == order[j].0);
    }
}

/// With no connection, any order splits with every node in the first part.
proof fn lemma_split_without_connections(order: Seq<NodeId>)
    ensures
        is_cycle_split(order, Seq::<Connection>::empty(), order.len() as int),
{
}

/// Computes the order in which the nodes `0..node_count` are processed.
///
/// Nodes are scheduled by Kahn's algorithm in first-in first-out order,
/// starting from the nodes that no connection feeds; the nodes that are never
/// scheduled, those on or behind a cycle, follow in identifier order.
#[verifier::rlimit(60)]
pub fn compute_processing_order(node_count: u32, connections: &Vec<Connection>) -> (order: Vec<
    NodeId,
>)
    requires
        connections_in_range(connections@, node_count as int),
    ensures
        is_processing_order(order@, node_count as int, connections@),
{
    let n = node_count as usize;
    let m = connections.len();
    let ghost conns = connections@;
    let ghost ni = n as int;

    let mut indeg: Vec<usize> = Vec::new();
    let mut done: Vec<bool> = Vec::new();
    let mut i: usize = 0;
    while i < n
        invariant
            i <= n,
            indeg.len() == i,
            done.len() == i,
            forall|v: int| 0 <= v < i ==> indeg@[v] == 0,
            forall|v: int| 0 <= v < i ==> !done@[v],
        decreases n - i,
    {
        indeg.push(0);
        done.push(false);
        i = i + 1;
    }
    let ghost done0 = done@;

    let mut k: usize = 0;
    while k < m
        invariant
            n == ni,
            m == conns.len(),
            conns == connections@,
            connections_in_range(conns, ni),
            k <= m,
            indeg.len() == n,
            done@ == done0,
            done.len() == n,
            forall|v: int| 0 <= v < n ==> !done@[v],
            forall|v: int| 0 <= v < n ==> indeg@[v] as int == in_count(conns, v, done@, k as int),
        decreases m - k,
    {
        let d = connections[k].to.node.0 as usize;
        assert(0 <= conn_dst(conns[k as int]) < ni);
        assert(0 <= conn_src(conns[k as int]) < ni);
        proof {
            lemma_in_count_bound(conns, d as int, done@, k as int);
        }
        let cur = indeg[d];
        indeg.set(d, cur + 1);
        k = k + 1;
    }

    // pos[v] is the position of v in the queue, or -1 while v is not queued.
    let mut queue: Vec<usize> = Vec::new();
    let ghost mut pos: Seq<int> = Seq::new(n as nat, |v: int| -1int);
    i = 0;
    while i < n
        invariant
            n == ni,
            i <= n,
            indeg.len() == n,
            pos.len() == n,
            forall|j: int| 0 <= j < queue.len() ==> (#[trigger] queue@[j]) < i,
            forall|j: int| 0 <= j < queue.len() ==> pos[#[trigger] queue@[j] as int] == j,
            forall|v: int| 0 <= v < n ==> -1 <= #[trigger] pos[v] < queue.len(),
            forall|v: int| 0 <= v < n && #[trigger] pos[v] >= 0 ==> queue@[pos[v]] == v,
            forall|v: int| 0 <= v < i && indeg@[v] == 0 ==> #[trigger] pos[v] >= 0,
            forall|j: int| 0 <= j < queue.len() ==> indeg@[#[trigger] queue@[j] as int] == 0,
        decreases n - i,
    {
        if indeg[i] == 0 {
            proof {
                pos = pos.update(i as int, queue.len() as int);
            }
            queue.push(i);
        }
        i = i + 1;
    }

    let mut head: usize = 0;
    let mut order: Vec<NodeId> = Vec::new();
    while head < queue.len()
        invariant
            n == ni,
            n == node_count,
            m == conns.len(),
            conns == connections@,
            connections_in_range(conns, ni),
            indeg.len() == n,
            done.len() == n,
            pos.len() == n,
            head <= queue.len(),
            forall|v: int| 0 <= v < n ==> indeg@[v] as int == in_count(conns, v, done@, m as int),
            forall|j: int| 0 <= j < queue.len() ==> (#[trigger] queue@[j]) < n,
            forall|j: int| 0 <= j < queue.len() ==> pos[#[trigger] queue@[j] as int] == j,
            forall|v: int| 0 <= v < n ==> -1 <= #[trigger] pos[v] < queue.len(),
            forall|v: int| 0 <= v < n && #[trigger] pos[v] >= 0 ==> queue@[pos[v]] == v,
            forall|j: int| 0 <= j < head ==> done@[#[trigger] queue@[j] as int],
            forall|j: int| head <= j < queue.len() ==> !done@[#[trigger] queue@[j] as int],
            forall|j: int| head <= j < queue.len() ==> indeg@[#[trigger] queue@[j] as int] == 0,
            forall|v: int| 0 <= v < n && #[trigger] done@[v] ==> 0 <= pos[v] < head,
            forall|v: int| 0 <= v < n && indeg@[v] == 0 ==> #[trigger] pos[v] >= 0,
            order.len() == head,
            forall|j: int| 0 <= j < head ==> (#[trigger] order@[j]).0 == queue@[j],
            forall|kk: int|
                0 <= kk < m && 0 <= #[trigger] pos[conn_dst(conns[kk])] < head ==> 0 <= pos[conn_src(
                    conns[kk],
                )] < pos[conn_dst(conns[kk])],
        decreases count_unqueued(pos) + queue.len() - head,
    {
        let u = queue[head];
        let ghost done_old = done@;
        let ghost gh = head as int;
        let ghost measure0 = count_unqueued(pos) + queue.len();
        proof {
            lemma_in_count_zero(conns, u as int, done@, m as int);
            assert forall|kk: int|
                0 <= kk < m && 0 <= #[trigger] pos[conn_dst(conns[kk])] < gh
                    + 1 implies 0 <= pos[conn_src(conns[kk])] < pos[conn_dst(conns[kk])] by {
                let c = conns[kk];
                assert(0 <= conn_src(c) < n && 0 <= conn_dst(c) < n);
                if pos[conn_dst(c)] == gh {
                    assert(conn_dst(c) == u);
                    assert(done@[conn_src(c)]);
                }
            }
        }
        head = head + 1;
        done.set(u, true);
        order.push(NodeId(u as u32));

        let mut k: usize = 0;
        while k < m
            invariant
                n == ni,
                n == node_count,
                m == conns.len(),
                conns == connections@,
                connections_in_range(conns, ni),
                u < n,
                head == gh + 1,
                gh >= 0,
                order.len() == head,
                forall|j: int| 0 <= j < head ==> (#[trigger] order@[j]).0 == queue@[j],
                head <= queue.len(),
                queue@[gh] == u,
                !done_old[u as int],
                done_old.len() == n,
                done@ == done_old.update(u as int, true),
                k <= m,
                indeg.len() == n,
                pos.len() == n,
                forall|v: int|
                    0 <= v < n ==> indeg@[v] + pair_count(conns, u as int, v, k as int) == in_count(
                        conns,
                        v,
                        done_old,
                        m as int,
                    ),
                forall|j: int| 0 <= j < queue.len() ==> (#[trigger] queue@[j]) < n,
                forall|j: int| 0 <= j < queue.len() ==> pos[#[trigger] queue@[j] as int] == j,
                forall|v: int| 0 <= v < n ==> -1 <= #[trigger] pos[v] < queue.len(),
                forall|v: int| 0 <= v < n && #[trigger] pos[v] >= 0 ==> queue@[pos[v]] == v,
                forall|j: int| 0 <= j < head ==> done@[#[trigger] queue@[j] as int],
                forall|j: int| head <= j < queue.len() ==> !done@[#[trigger] queue@[j] as int],
                forall|j: int| head <= j < queue.len() ==> indeg@[#[trigger] queue@[j] as int] == 0,
                forall|v: int| 0 <= v < n && #[trigger] done@[v] ==> 0 <= pos[v] < head,
                forall|v: int| 0 <= v < n && indeg@[v] == 0 ==> #[trigger] pos[v] >= 0,
                forall|kk: int|
                    0 <= kk < m && 0 <= #[trigger] pos[conn_dst(conns[kk])] < head ==> 0 <= pos[conn_src(
                        conns[kk],
                    )] < pos[conn_dst(conns[kk])],
                count_unqueued(pos) + queue.len() == measure0,
            decreases m - k,
        {
            if connections[k].from.node.0 as usize == u {
                let v = connections[k].to.node.0 as usize;
                assert(0 <= conn_dst(conns[k as int]) < ni);
                proof {
                    lemma_pair_le_in(conns, v as int, done_old, u as int, m as int);
                    lemma_pair_monotone(conns, u as int, v as int, k as int + 1, m as int);
                }
                let cur = indeg[v];
                indeg.set(v, cur - 1);
                if cur - 1 == 0 && !done[v] {
                    proof {
                        if pos[v as int] >= 0 {
                            let j = pos[v as int];
                            assert(queue@[j] == v);
                            if j < head {
                                assert(done@[queue@[j] as int]);
                            } else {
                                assert(indeg@[queue@[j] as int] == 0);
                            }
                        }
                        lemma_count_unqueued_update(pos, v as int, queue.len() as int);
                        pos = pos.update(v as int, queue.len() as int);
                    }
                    let ghost prev_q = queue@;
                    queue.push(v);
                    assert(queue@[gh] == prev_q[gh]);
                }
            }
            k = k + 1;
        }
        proof {
            assert forall|v: int| 0 <= v < n implies indeg@[v] as int == in_count(
                conns,
                v,
                done@,
                m as int,
            ) by {
                lemma_in_count_schedule(conns, v, done_old, u as int, m as int);
            }
        }
    }
    proof {
        assert forall|w: int| 0 <= w < n && !done@[w] implies #[trigger] has_unscheduled_feed(
            conns,
            done@,
            w,
        ) by {
            if indeg@[w] == 0 {
                let j = pos[w];
                assert(queue@[j] == w);
                assert(done@[queue@[j] as int]);
            }
            let kk = lemma_in_count_pos(conns, w, done@, m as int);
            assert(conn_dst(conns[kk]) == w);
        }
        assert forall|kk: int| 0 <= kk < m && done@[conn_dst(#[trigger] conns[kk])] implies done@[conn_src(
            conns[kk],
        )] by {
            let c = conns[kk];
            assert(0 <= conn_src(c) < n && 0 <= conn_dst(c) < n);
            let p = pos[conn_src(c)];
            assert(queue@[p] as int == conn_src(c));
            assert(done@[queue@[p] as int]);
        }
    }
    proof {
        if is_acyclic(conns) {
            let rank = choose|rank: spec_fn(int) -> int| #[trigger] ranks_connections(rank, conns);
            assert forall|w: int| 0 <= w < n implies #[trigger] done@[w] by {
                if !done@[w] {
                    let mn = lemma_min_rank(done@, rank, ni, w);
                    assert forall|kk: int|
                        0 <= kk < m && conn_dst(#[trigger] conns[kk]) == mn implies done@[conn_src(
                        conns[kk],
                    )] by {
                        let s = conn_src(conns[kk]);
                        assert(0 <= s < n);
                        assert(rank(s) < rank(mn));
                    }
                    lemma_in_count_zero_rev(conns, mn, done@, m as int);
                    assert(pos[mn] >= 0);
                    assert(done@[queue@[pos[mn]] as int]);
                }
            }
        }
    }

    let ghost done_final = done@;
    let ghost gh = head as int;
    // opos[w] is the position of w in the order.
    let ghost mut opos: Seq<int> = pos;
    let mut v: usize = 0;
    while v < n
        invariant
            n == ni,
            n == node_count,
            m == conns.len(),
            conns == connections@,
            done.len() == n,
            done@ == done_final,
            pos.len() == n,
            opos.len() == n,
            v <= n,
            gh == queue.len(),
            gh <= order.len(),
            forall|j: int| 0 <= j < queue.len() ==> (#[trigger] queue@[j]) < n,
            forall|j: int| 0 <= j < queue.len() ==> pos[#[trigger] queue@[j] as int] == j,
            forall|j: int| 0 <= j < gh ==> (#[trigger] order@[j]).0 == queue@[j],
            forall|j: int| 0 <= j < gh ==> done@[#[trigger] queue@[j] as int],
            forall|j: int|
                gh <= j < order.len() ==> (#[trigger] order@[j]).0 < v && !done@[order@[j].0 as int],
            rest_in_id_order(order@, gh),
            forall|w: int| 0 <= w < n && #[trigger] done@[w] ==> 0 <= pos[w] < gh,
            forall|w: int| 0 <= w < n && #[trigger] done@[w] ==> opos[w] == pos[w],
            forall|w: int|
                0 <= w < n && (done@[w] || w < v) ==> 0 <= #[trigger] opos[w] < order.len() && order@[opos[w]].0
                    == w,
            forall|j: int|
                0 <= j < order.len() ==> (#[trigger] order@[j]).0 < n && opos[order@[j].0 as int]
                    == j,
            forall|kk: int|
                0 <= kk < m && 0 <= #[trigger] pos[conn_dst(conns[kk])] < gh ==> 0 <= pos[conn_src(
                    conns[kk],
                )] < pos[conn_dst(conns[kk])],
            is_acyclic(conns) ==> forall|w: int| 0 <= w < n ==> #[trigger] done@[w],
            connections_in_range(conns, ni),
            forall|w: int| 0 <= w < n && !done@[w] ==> #[trigger] has_unscheduled_feed(conns, done@, w),
            forall|kk: int|
                0 <= kk < m && done@[conn_dst(#[trigger] conns[kk])] ==> done@[conn_src(conns[kk])],
        decreases n - v,
    {
        if !done[v] {
            proof {
                assert forall|j: int| 0 <= j < order.len() implies (#[trigger] order@[j]).0 != v by {
                    if j < gh {
                        assert(done@[queue@[j] as int]);
                    }
                }
                opos = opos.update(v as int, order.len() as int);
            }
            order.push(NodeId(v as u32));
        }
        v = v + 1;
    }
    proof {
        assert forall|i: int, j: int|
            0 <= i < order.len() && 0 <= j < order.len() && i != j implies order@[i] != order@[j] by {
            if order@[i] == order@[j] {
                assert(opos[order@[i].0 as int] == i);
            }
        }
        assert forall|id: u32| id < n implies #[trigger] order@.contains(NodeId(id)) by {
            let w = id as int;
            assert(order@[opos[w]] == NodeId(id));
        }
        assert forall|j: int| 0 <= j < gh implies done@[(#[trigger] order@[j]).0 as int] by {
            assert(done@[queue@[j] as int]);
        }
        lemma_first_part_ordered(order@, conns, done@, pos, opos, gh, ni);
        lemma_rest_is_fed(order@, conns, done@, opos, gh, ni);
        assert(is_cycle_split(order@, conns, gh));
        if is_acyclic(conns) {
            assert forall|kk: int, i: int, j: int|
                0 <= kk < conns.len() && 0 <= i < order.len() && 0 <= j < order.len() && (
                #[trigger] order@[i]).0 == conn_src(#[trigger] conns[kk]) && (
                #[trigger] order@[j]).0 == conn_dst(conns[kk]) implies i < j by {
                let s = conn_src(conns[kk]);
                let d = conn_dst(conns[kk]);
                assert(opos[s] == i);
                assert(opos[d] == j);
                assert(done@[d]);
                assert(done@[s]);
            }
        }
    }
    order
}

/// Topology of a processing graph: the nodes `0..node_count`, the connections
/// between their ports, and the processing order derived from them.
pub struct AudioGraph {
    next_id: u32,
    connections: Vec<Connection>,
    processing_order: Vec<NodeId>,
}

impl AudioGraph {
    #[verifier::type_invariant]
    spec fn well_formed(self) -> bool {
        &&& connections_in_range(self.connections@, self.next_id as int)
        &&& is_processing_order(self.processing_order@, self.next_id as int, self.connections@)
    }

    /// Number of nodes added so far; their identifiers are `0..node_count`.
    pub closed spec fn node_count(&self) -> nat {
        self.next_id as nat
    }

    /// The connections, in the order they were made.
    pub closed spec fn connection_list(&self) -> Seq<Connection> {
        self.connections@
    }

    /// The current processing order.
    pub closed spec fn order(&self) -> Seq<NodeId> {
        self.processing_order@
    }

    /// Create an empty graph.
    pub fn new() -> (g: Self)
        ensures
            g.node_count() == 0,
            g.connection_list() == Seq::<Connection>::empty(),
            g.order() == Seq::<NodeId>::empty(),
    {
        proof {
            lemma_split_without_connections(Seq::<NodeId>::empty());
        }
        AudioGraph { next_id: 0, connections: Vec::new(), processing_order: Vec::new() }
    }

    /// Add a node and return its identifier; the processing order is recomputed.
    pub fn add_node(&mut self) -> (id: NodeId)
        requires
            old(self).node_count() < u32::MAX,
        ensures
            id.0 == old(self).node_count(),
            final(self).node_count() == old(self).node_count() + 1,
            final(self).connection_list() == old(self).connection_list(),
            is_processing_order(
                final(self).order(),
                final(self).node_count() as int,
                final(self).connection_list(),
            ),
    {
        proof {
            use_type_invariant(&*self);
        }
        let id = NodeId(self.next_id);
        let count = self.next_id + 1;
        proof {
            lemma_split_without_connections(self.processing_order@);
        }
        let mut connections: Vec<Connection> = Vec::new();
        std::mem::swap(&mut connections, &mut self.connections);
        let order = compute_processing_order(count, &connections);
        *self = AudioGraph { next_id: count, connections, processing_order: order };
        id
    }

    /// Whether a node with this identifier was added.
    pub fn contains_node(&self, id: NodeId) -> (r: bool)
        ensures
            r == (id.0 < self.node_count()),
    {
        id.0 < self.next_id
    }

    /// Connect an output port to an input port.
    ///
    /// Fails with `InvalidNodeId` when a port belongs to an unknown node, and
    /// with `InvalidDirection` unless `from` is an output and `to` an input;
    /// on failure the graph is unchanged. On success the connection is
    /// appended and the processing order recomputed.
    pub fn connect(&mut self, from: PortId, to: PortId, gain_bits: u32) -> (r: Result<(), GraphError>)
        ensures
            final(self).node_count() == old(self).node_count(),
            is_processing_order(
                final(self).order(),
                final(self).node_count() as int,
                final(self).connection_list(),
            ),
            match r {
                Ok(()) => {
                    &&& from.node.0 < old(self).node_count()
                    &&& to.node.0 < old(self).node_count()
                    &&& !from.is_input && to.is_input
                    &&& final(self).connection_list() == old(self).connection_list().push(
                        Connection { from, to, gain_bits },
                    )
                },
                Err(GraphError::InvalidNodeId) => {
                    &&& !(from.node.0 < old(self).node_count() && to.node.0 < old(
                        self,
                    ).node_count())
                    &&& final(self).connection_list() == old(self).connection_list()
                    &&& final(self).order() == old(self).order()
                },
                Err(GraphError::InvalidDirection) => {
                    &&& from.node.0 < old(self).node_count()
                    &&& to.node.0 < old(self).node_count()
                    &&& !(!from.is_input && to.is_input)
                    &&& final(self).connection_list() == old(self).connection_list()
                    &&& final(self).order() == old(self).order()
                },
            },
    {
        proof {
            use_type_invariant(&*self);
        }
        if !(from.node.0 < self.next_id) || !(to.node.0 < self.next_id) {
            return Err(GraphError::InvalidNodeId);
        }
        if !from.is_input && to.is_input {
            proof {
                lemma_split_without_connections(self.processing_order@);
            }
            let mut connections: Vec<Connection> = Vec::new();
            std::mem::swap(&mut connections, &mut self.connections);
            connections.push(Connection { from, to, gain_bits });
            let order = compute_processing_order(self.next_id, &connections);
            *self = AudioGraph { next_id: self.next_id, connections, processing_order: order };
            Ok(())
        } else {
            Err(GraphError::InvalidDirection)
        }
    }


    /// The connections that feed input port `port`, in the order they were made.
    pub fn connections_into(&self, port: PortId) -> (r: Vec<Connection>)
        ensures
            r@ == self.connection_list().filter(feeds(port)),
    {
        let mut r: Vec<Connection> = Vec::new();
        let mut i: usize = 0;
        while i < self.connections.len()
            invariant
                i <= self.connections@.len(),
                r@ == self.connections@.take(i as int).filter(feeds(port)),
            decreases self.connections@.len() - i,
        {
            let c = self.connections[i];
            proof {
                let next = self.connections@.take(i as int + 1);
                assert(next.drop_last() == self.connections@.take(i as int));
                assert(next.last() == c);
                reveal(Seq::filter);
            }
            if c.to == port {
                r.push(c);
            }
            i += 1;
        }
        proof {
            assert(self.connections@.take(i as int) == self.connections@);
        }
        r
    }

    /// Whether no connection leaves one of the output ports
    /// `0..num_outputs` of `node`.
    pub fn is_sink(&self, node: NodeId, num_outputs: usize) -> (r: bool)
        ensures
            r == is_sink(self.connection_list(), node, num_outputs as int),
    {
        let mut i: usize = 0;
        while i < self.connections.len()
            invariant
                i <= self.connections@.len(),
                forall|k: int|
                    0 <= k < i ==> !((#[trigger] self.connections@[k]).from.node == node
                        && !self.connections@[k].from.is_input
                        && (self.connections@[k].from.index as int) < num_outputs),
            decreases self.connections@.len() - i,
        {
            let c = self.connections[i];
            if c.from.node == node && !c.from.is_input && (c.from.index as usize) < num_outputs {
                return false;
            }
            i += 1;
        }
        true
    }

    /// The node whose outputs are the graph's outputs, given the number of
    /// output ports of each node (indexed by identifier): the first node in
    /// processing order none of whose outputs is connected, or else the last
    /// node in processing order; `None` for an empty graph.
    pub fn output_node(&self, num_outputs: &Vec<usize>) -> (r: Option<NodeId>)
        requires
            num_outputs@.len() == self.node_count(),
        ensures
            is_output_choice(r, self.order(), self.connection_list(), num_outputs@),
    {
        proof {
            use_type_invariant(self);
        }
        let n = self.processing_order.len();
        let mut i: usize = 0;
        while i < n
            invariant
                n == self.processing_order@.len(),
                i <= n,
                num_outputs@.len() == self.next_id,
                is_node_permutation(self.processing_order@, self.next_id as int),
                forall|j: int|
                    0 <= j < i ==> !is_sink(
                        self.connections@,
                        #[trigger] self.processing_order@[j],
                        num_outputs@[self.processing_order@[j].0 as int] as int,
                    ),
            decreases n - i,
        {
            let id = self.processing_order[i];
            let count = num_outputs[id.0 as usize];
            if self.is_sink(id, count) {
                proof {
                    assert(self.processing_order@[i as int] == id);
                }
                return Some(id);
            }
            i += 1;
        }
        if n == 0 {
            None
        } else {
            let last = self.processing_order[n - 1];
            proof {
                assert(self.processing_order@[n - 1] == last);
            }
            Some(last)
        }
    }

    /// The connections, in the order they were made.
    pub fn get_connections(&self) -> (r: &[Connection])
        ensures
            r@ == self.connection_list(),
            connections_in_range(r@, self.node_count() as int),
    {
        proof {
            use_type_invariant(self);
        }
        self.connections.as_slice()
    }

    /// The processing order: each node exactly once; the nodes neither on
    /// nor behind a cycle first, each after the nodes feeding it; and a
    /// topological order whenever the connections form no cycle.
    pub fn get_processing_order(&self) -> (r: &[NodeId])
        ensures
            r@ == self.order(),
            is_processing_order(r@, self.node_count() as int, self.connection_list()),
    {
        proof {
            use_type_invariant(self);
        }
        self.processing_order.as_slice()
    }
}

} // verus!
