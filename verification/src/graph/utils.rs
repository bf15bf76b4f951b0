//! Building a graph by node names.
use crate::graph::{AudioGraph, GraphError, NodeId, PortId};
use vstd::prelude::*;

verus! {

/// Why a connection by names was refused.
#[derive(Debug, Clone, PartialEq, Eq)]
pub enum BuilderError {
    /// No node carries this name.
    NodeNotFound(String),
    /// The graph refused the connection.
    Graph(GraphError),
}

/// The identifier of the first node named `name` in `names`, if any.
pub open spec fn first_named(names: Seq<(String, NodeId)>, name: Seq<char>) -> Option<NodeId>
    decreases names.len(),
{
    if names.len() == 0 {
        None
    } else if names[0].0@ == name {
        Some(names[0].1)
    } else {
        first_named(names.drop_first(), name)
    }
}

/// A name finds the node it was first given to: when the lookup finds a
/// node, the pair at some position holds that name and node and no earlier
/// pair holds the name; when it finds none, no pair holds the name.
pub proof fn law_lookup_finds_first_named(names: Seq<(String, NodeId)>, name: Seq<char>)
    ensures
        first_named(names, name) matches Some(id) ==> exists|i: int|
            0 <= i < names.len() && (#[trigger] names[i]).0@ == name && names[i].1 == id && forall|
                j: int,
            | 0 <= j < i ==> (#[trigger] names[j]).0@ != name,
        first_named(names, name) is None ==> forall|i: int|
            0 <= i < names.len() ==> (#[trigger] names[i]).0@ != name,
    decreases names.len(),
{
    if names.len() > 0 && names[0].0@ != name {
        let rest = names.drop_first();
        law_lookup_finds_first_named(rest, name);
        if first_named(rest, name) is Some {
            let i = choose|i: int|
                0 <= i < rest.len() && (#[trigger] rest[i]).0@ == name && rest[i].1 == first_named(
                    rest,
                    name,
                )->0 && forall|j: int| 0 <= j < i ==> (#[trigger] rest[j]).0@ != name;
            assert(names[i + 1] == rest[i]);
            assert forall|j: int| 0 <= j < i + 1 implies (#[trigger] names[j]).0@ != name by {
                if j > 0 {
                    assert(names[j] == rest[j - 1]);
                }
            }
        } else {
            assert forall|i: int| 0 <= i < names.len() implies (#[trigger] names[i]).0@ != name by {
                if i > 0 {
                    assert(names[i] == rest[i - 1]);
                }
            }
        }
    } else if names.len() > 0 {
        assert(names[0].0@ == name);
    }
}

/// Adds nodes to a graph under names and connects them by name.
pub struct GraphBuilder<'a> {
    graph: &'a mut AudioGraph,
    node_ids: Vec<(String, NodeId)>,
}

impl<'a> GraphBuilder<'a> {
    /// The graph being built.
    pub closed spec fn graph_view(&self) -> AudioGraph {
        *self.graph
    }

    /// The names given so far, with their nodes, in the order given.
    pub closed spec fn names(&self) -> Seq<(String, NodeId)> {
        self.node_ids@
    }

    /// Start naming the nodes of `graph`.
    pub fn new(graph: &'a mut AudioGraph) -> (b: Self)
        ensures
            b.graph_view() == *old(graph),
            b.names() == Seq::<(String, NodeId)>::empty(),
    {
        GraphBuilder { graph, node_ids: Vec::new() }
    }

    /// Add a node to the graph under `name`.
    pub fn add_named_node(&mut self, name: &str) -> (id: NodeId)
        requires
            old(self).graph_view().node_count() < u32::MAX,
        ensures
            id.0 == old(self).graph_view().node_count(),
            final(self).graph_view().node_count() == old(self).graph_view().node_count() + 1,
            final(self).graph_view().connection_list() == old(
                self,
            ).graph_view().connection_list(),
            final(self).names().len() == old(self).names().len() + 1,
            final(self).names().drop_last() == old(self).names(),
            final(self).names().last().0@ == name@,
            final(self).names().last().1 == id,
    {
        let id = self.graph.add_node();
        self.node_ids.push((name.to_owned(), id));
        assert(self.node_ids@.drop_last() =~= old(self).node_ids@);
        id
    }

    /// The node first added under `name`, if any.
    pub fn find_node(&self, name: &str) -> (r: Option<NodeId>)
        ensures
            r == first_named(self.names(), name@),
    {
        let wanted = name.to_owned();
        let mut i: usize = 0;
        assert(self.node_ids@.subrange(0, self.node_ids@.len() as int) =~= self.node_ids@);
        while i < self.node_ids.len()
            invariant
                i <= self.node_ids@.len(),
                wanted@ == name@,
                first_named(self.node_ids@, name@) == first_named(
                    self.node_ids@.subrange(i as int, self.node_ids@.len() as int),
                    name@,
                ),
            decreases self.node_ids@.len() - i,
        {
            let ghost rest = self.node_ids@.subrange(i as int, self.node_ids@.len() as int);
            assert(rest.drop_first() =~= self.node_ids@.subrange(
                i as int + 1,
                self.node_ids@.len() as int,
            ));
            if self.node_ids[i].0 == wanted {
                return Some(self.node_ids[i].1);
            }
            i = i + 1;
        }
        None
    }

    /// Connect output `from_port` of the node named `from_name` to input
    /// `to_port` of the node named `to_name`.
    ///
    /// Fails with `NodeNotFound` naming the first of the two names that no
    /// node carries; otherwise the graph decides, as `AudioGraph::connect`
    /// states.
    pub fn connect_by_name(
        &mut self,
        from_name: &str,
        from_port: u8,
        to_name: &str,
        to_port: u8,
        gain_bits: u32,
    ) -> (r: Result<(), BuilderError>)
        ensures
            final(self).names() == old(self).names(),
            final(self).graph_view().node_count() == old(self).graph_view().node_count(),
            match (
                first_named(old(self).names(), from_name@),
                first_named(old(self).names(), to_name@),
            ) {
                (None, _) => r matches Err(BuilderError::NodeNotFound(n)) && n@ == from_name@
                    && final(self).graph_view() == old(self).graph_view(),
                (Some(_), None) => r matches Err(BuilderError::NodeNotFound(n)) && n@ == to_name@
                    && final(self).graph_view() == old(self).graph_view(),
                (Some(f), Some(t)) => {
                    let from = PortId { node: f, index: from_port, is_input: false };
                    let to = PortId { node: t, index: to_port, is_input: true };
                    if f.0 < old(self).graph_view().node_count() && t.0 < old(
                        self,
                    ).graph_view().node_count() {
                        r == Ok::<(), BuilderError>(())
                            && final(self).graph_view().connection_list() == old(
                            self,
                        ).graph_view().connection_list().push(
                            crate::graph::Connection { from, to, gain_bits },
                        )
                    } else {
                        r == Err::<(), BuilderError>(BuilderError::Graph(GraphError::InvalidNodeId))
                            && final(self).graph_view().connection_list() == old(
                            self,
                        ).graph_view().connection_list()
                    }
                },
            },
    {
        let from_id = match self.find_node(from_name) {
            Some(id) => id,
            None => return Err(BuilderError::NodeNotFound(from_name.to_owned())),
        };
        let to_id = match self.find_node(to_name) {
            Some(id) => id,
            None => return Err(BuilderError::NodeNotFound(to_name.to_owned())),
        };
        let from = PortId { node: from_id, index: from_port, is_input: false };
        let to = PortId { node: to_id, index: to_port, is_input: true };
        match self.graph.connect(from, to, gain_bits) {
            Ok(()) => Ok(()),
            Err(e) => Err(BuilderError::Graph(e)),
        }
    }
}

} // verus!
