//! The object graph: the authoritative collection of nodes, links, and the
//! holding area for ports that arrived before their owning node, together
//! with the reconciliation pass that attaches pending ports.

use crate::event::{ConnectorEvent, Effects, ServerRequest};
use crate::link::Link;
use crate::node::{spec_has_port_id, Node, NodeV};
use crate::port::{Port, PortV};
use crate::utils::str_eq;
use vstd::prelude::*;

verus! {

/// A failure while operating on the graph.
#[derive(Debug, Clone, Copy, PartialEq, Eq, Structural)]
pub enum GraphError {
    LinkNotFound(u32),
}

/// The whole graph: nodes, confirmed links, and ports waiting for their node.
pub struct PipeWireObjects {
    pub nodes: Vec<Node>,
    pub links: Vec<Link>,
    pub ports_to_be_added: Vec<Port>,
}

/// Mathematical image of the graph.
#[verifier::ext_equal]
pub struct GraphV {
    pub nodes: Seq<NodeV>,
    pub links: Seq<Link>,
    pub pending: Seq<PortV>,
}

impl View for PipeWireObjects {
    type V = GraphV;

    open spec fn view(&self) -> GraphV {
        GraphV {
            nodes: self.nodes@.map_values(|n: Node| n@),
            links: self.links@,
            pending: self.ports_to_be_added@.map_values(|p: Port| p@),
        }
    }
}

impl Default for PipeWireObjects {
    /// An empty graph.
    fn default() -> (r: PipeWireObjects)
        ensures
            r@.nodes =~= Seq::<NodeV>::empty(),
            r@.links =~= Seq::<Link>::empty(),
            r@.pending =~= Seq::<PortV>::empty(),
    {
        PipeWireObjects { nodes: Vec::new(), links: Vec::new(), ports_to_be_added: Vec::new() }
    }
}

/// The first node whose own id is the given one, if any.
pub open spec fn spec_node_idx_by_exact_id(nodes: Seq<NodeV>, id: u32) -> Option<int>
    decreases nodes.len(),
{
    if nodes.len() == 0 {
        None
    } else if nodes[0].id == id {
        Some(0)
    } else {
        match spec_node_idx_by_exact_id(nodes.drop_first(), id) {
            Some(i) => Some(i + 1),
            None => None,
        }
    }
}

/// Whether a node matches an id lookup: by its own id, or by owning a port
/// with that id.
pub open spec fn spec_node_matches_id(n: NodeV, id: u32) -> bool {
    n.id == id || spec_has_port_id(n.ports, id)
}

/// The first node matching the given id (by node id or by owned port id).
pub open spec fn spec_node_idx_by_id(nodes: Seq<NodeV>, id: u32) -> Option<int>
    decreases nodes.len(),
{
    if nodes.len() == 0 {
        None
    } else if spec_node_matches_id(nodes[0], id) {
        Some(0)
    } else {
        match spec_node_idx_by_id(nodes.drop_first(), id) {
            Some(i) => Some(i + 1),
            None => None,
        }
    }
}

/// The first node with the given name, if any.
pub open spec fn spec_node_idx_by_name(nodes: Seq<NodeV>, name: Seq<char>) -> Option<int>
    decreases nodes.len(),
{
    if nodes.len() == 0 {
        None
    } else if nodes[0].name == name {
        Some(0)
    } else {
        match spec_node_idx_by_name(nodes.drop_first(), name) {
            Some(i) => Some(i + 1),
            None => None,
        }
    }
}

/// The first link with the given id, if any.
pub open spec fn spec_link_idx(links: Seq<Link>, id: u32) -> Option<int>
    decreases links.len(),
{
    if links.len() == 0 {
        None
    } else if links[0].id == id {
        Some(0)
    } else {
        match spec_link_idx(links.drop_first(), id) {
            Some(i) => Some(i + 1),
            None => None,
        }
    }
}

/// The indices the two-node lookup reports: a linear scan in which a later
/// match for either id overwrites an earlier one, and the second id is only
/// considered where the first did not match.
pub open spec fn spec_find_two(nodes: Seq<NodeV>, first_id: u32, second_id: u32) -> (
    Option<int>,
    Option<int>,
)
    decreases nodes.len(),
{
    if nodes.len() == 0 {
        (None, None)
    } else {
        let prev = spec_find_two(nodes.drop_last(), first_id, second_id);
        let i = nodes.len() - 1;
        if nodes[i].id == first_id {
            (Some(i as int), prev.1)
        } else if nodes[i].id == second_id {
            (prev.0, Some(i as int))
        } else {
            prev
        }
    }
}

/// The node with one more port attached at the end.
pub open spec fn spec_with_port(n: NodeV, p: PortV) -> NodeV {
    NodeV { ports: n.ports.push(p), ..n }
}

/// One reconciliation drain: pending ports are taken from the back; a port
/// whose node exists is attached to it unless the node already owns a port
/// with that id (then the port is discarded as a duplicate); a port whose
/// node is absent is moved to the not-found list, which becomes the new
/// pending set.
pub open spec fn spec_reconcile(
    nodes: Seq<NodeV>,
    pending: Seq<PortV>,
    not_found: Seq<PortV>,
) -> (Seq<NodeV>, Seq<PortV>)
    decreases pending.len(),
{
    if pending.len() == 0 {
        (nodes, not_found)
    } else {
        let port = pending.last();
        let rest = pending.drop_last();
        match spec_node_idx_by_exact_id(nodes, port.node_id) {
            Some(i) => {
                if spec_has_port_id(nodes[i].ports, port.id) {
                    spec_reconcile(nodes, rest, not_found)
                } else {
                    spec_reconcile(nodes.update(i, spec_with_port(nodes[i], port)), rest, not_found)
                }
            },
            None => spec_reconcile(nodes, rest, not_found.push(port)),
        }
    }
}

/// What one reconciliation pass leaves of the graph.  The pass is skipped
/// entirely while there are no nodes or no pending ports.
pub open spec fn spec_update(g: GraphV) -> GraphV {
    if g.nodes.len() == 0 || g.pending.len() == 0 {
        g
    } else {
        let r = spec_reconcile(g.nodes, g.pending, Seq::empty());
        GraphV { nodes: r.0, links: g.links, pending: r.1 }
    }
}

/// The graph after a "node appeared" notification: the node is added and a
/// reconciliation pass runs.
pub open spec fn spec_track_node(g: GraphV, nv: NodeV) -> GraphV {
    spec_update(GraphV { nodes: g.nodes.push(nv), ..g })
}

/// The graph after a "port appeared" notification: the port is held pending
/// and a reconciliation pass runs.
pub open spec fn spec_track_port(g: GraphV, pv: PortV) -> GraphV {
    spec_update(GraphV { pending: g.pending.push(pv), ..g })
}

/// The graph after a "link appeared" notification: the link is recorded and
/// a reconciliation pass runs.
pub open spec fn spec_track_link(g: GraphV, l: Link) -> GraphV {
    spec_update(GraphV { links: g.links.push(l), ..g })
}

/// Appending a node moves an id lookup only where nothing matched before.
proof fn lemma_exact_idx_push(nodes: Seq<NodeV>, x: NodeV, id: u32)
    ensures
        spec_node_idx_by_exact_id(nodes.push(x), id) == (match spec_node_idx_by_exact_id(
            nodes,
            id,
        ) {
            Some(j) => Some(j),
            None => if x.id == id {
                Some(nodes.len() as int)
            } else {
                None
            },
        }),
    decreases nodes.len(),
{
    if nodes.len() == 0 {
        assert(nodes.push(x)[0] == x);
        assert(nodes.push(x).drop_first() =~= Seq::<NodeV>::empty());
        assert(spec_node_idx_by_exact_id(Seq::<NodeV>::empty(), id) is None);
        assert(spec_node_idx_by_exact_id(nodes, id) is None);
    } else {
        assert(nodes.push(x)[0] == nodes[0]);
        assert(nodes.push(x).drop_first() =~= nodes.drop_first().push(x));
        lemma_exact_idx_push(nodes.drop_first(), x, id);
        assert(spec_node_idx_by_exact_id(nodes.push(x), id) == (if nodes[0].id == id {
            Some(0int)
        } else {
            match spec_node_idx_by_exact_id(nodes.drop_first().push(x), id) {
                Some(i) => Some(i + 1),
                None => None,
            }
        }));
        assert(spec_node_idx_by_exact_id(nodes, id) == (if nodes[0].id == id {
            Some(0int)
        } else {
            match spec_node_idx_by_exact_id(nodes.drop_first(), id) {
                Some(i) => Some(i + 1),
                None => None,
            }
        }));
    }
}

/// A drain over no pending ports changes nothing.
proof fn lemma_reconcile_empty(nodes: Seq<NodeV>, not_found: Seq<PortV>)
    ensures
        spec_reconcile(nodes, Seq::empty(), not_found) == (nodes, not_found),
{
}

/// Reconciliation is order-independent for a device and a channel: on any
/// graph with no pending ports, tracking the node first and the port second
/// leaves the same graph as the reverse order, whatever the two objects hold
/// and whichever node the port ends up attached to.
pub proof fn lemma_reconcile_order_independent(g: GraphV, nv: NodeV, pv: PortV)
    requires
        g.pending.len() == 0,
    ensures
        spec_track_port(spec_track_node(g, nv), pv) == spec_track_node(spec_track_port(g, pv), nv),
{
    let n1 = g.nodes.push(nv);
    let a1 = GraphV { nodes: n1, ..g };
    assert(spec_track_node(g, nv) == a1);
    let pend1 = g.pending.push(pv);
    assert(pend1.drop_last() =~= Seq::<PortV>::empty());
    assert(pend1.last() == pv);
    let a2arg = GraphV { pending: pend1, ..a1 };
    let b1arg = GraphV { pending: pend1, ..g };
    lemma_exact_idx_push(g.nodes, nv, pv.node_id);
    lemma_node_exact_idx_bounds(g.nodes, pv.node_id);
    lemma_node_exact_idx_bounds(n1, pv.node_id);
    if g.nodes.len() == 0 {
        assert(spec_update(b1arg) == b1arg);
        assert((GraphV { nodes: b1arg.nodes.push(nv), ..b1arg }) =~= a2arg);
    } else {
        match spec_node_idx_by_exact_id(g.nodes, pv.node_id) {
            Some(j) => {
                assert(n1[j] == g.nodes[j]);
                if spec_has_port_id(g.nodes[j].ports, pv.id) {
                    // A duplicate: both orders discard the port.
                    lemma_reconcile_empty(n1, Seq::empty());
                    lemma_reconcile_empty(g.nodes, Seq::empty());
                    assert(spec_reconcile(n1, pend1, Seq::empty()) == (n1, Seq::<PortV>::empty()));
                    assert(spec_reconcile(g.nodes, pend1, Seq::empty()) == (
                        g.nodes,
                        Seq::<PortV>::empty(),
                    ));
                    let b1 = spec_update(b1arg);
                    assert(b1.pending.len() == 0);
                    assert(spec_track_node(b1, nv) =~= (GraphV { nodes: b1.nodes.push(nv), ..b1 }));
                    assert(spec_track_port(a1, pv) =~= spec_track_node(spec_track_port(g, pv), nv));
                } else {
                    // Both orders attach the port to the same node.
                    let w = spec_with_port(g.nodes[j], pv);
                    lemma_reconcile_empty(n1.update(j, w), Seq::empty());
                    lemma_reconcile_empty(g.nodes.update(j, w), Seq::empty());
                    assert(spec_reconcile(n1, pend1, Seq::empty()) == (
                        n1.update(j, w),
                        Seq::<PortV>::empty(),
                    ));
                    assert(spec_reconcile(g.nodes, pend1, Seq::empty()) == (
                        g.nodes.update(j, w),
                        Seq::<PortV>::empty(),
                    ));
                    assert(n1.update(j, w) =~= g.nodes.update(j, w).push(nv));
                    let b1 = spec_update(b1arg);
                    assert(b1.pending.len() == 0);
                    assert(spec_track_node(b1, nv) =~= (GraphV { nodes: b1.nodes.push(nv), ..b1 }));
                    assert(spec_track_port(a1, pv) =~= spec_track_node(spec_track_port(g, pv), nv));
                }
            },
            None => {
                // The port finds no node among the old ones: in one order it
                // waits for the new node, in the other both are considered at
                // once; the graphs agree either way.
                assert(Seq::<PortV>::empty().push(pv) =~= pend1);
                lemma_reconcile_empty(g.nodes, Seq::<PortV>::empty().push(pv));
                assert(spec_reconcile(g.nodes, pend1, Seq::empty()) == (g.nodes, pend1));
                let b1 = spec_update(b1arg);
                assert(b1 =~= b1arg);
                assert((GraphV { nodes: b1.nodes.push(nv), ..b1 }) =~= a2arg);
            },
        }
    }
}

/// A port arriving in either order around its node ends attached to it: from
/// an empty starting graph, tracking a node and a port that names it leaves
/// exactly the node owning that port at the end of its ports, and nothing
/// pending.
pub proof fn lemma_pending_port_attaches(g: GraphV, nv: NodeV, pv: PortV)
    requires
        g.nodes.len() == 0,
        g.pending.len() == 0,
        pv.node_id == nv.id,
        !spec_has_port_id(nv.ports, pv.id),
    ensures
        spec_track_port(spec_track_node(g, nv), pv) == (GraphV {
            nodes: seq![spec_with_port(nv, pv)],
            links: g.links,
            pending: Seq::empty(),
        }),
{
    let a1 = GraphV { nodes: g.nodes.push(nv), ..g };
    assert(spec_update(a1) == a1);
    let a2 = GraphV { pending: a1.pending.push(pv), ..a1 };
    assert(a2.nodes =~= seq![nv]);
    assert(a2.pending =~= seq![pv]);
    assert(a2.pending.last() == pv);
    assert(a2.pending.drop_last() =~= Seq::<PortV>::empty());
    assert(spec_node_idx_by_exact_id(a2.nodes, pv.node_id) == Some(0int));
    let attached = a2.nodes.update(0, spec_with_port(nv, pv));
    assert(spec_reconcile(a2.nodes, a2.pending, Seq::empty()) == spec_reconcile(
        attached,
        a2.pending.drop_last(),
        Seq::empty(),
    ));
    assert(attached =~= seq![spec_with_port(nv, pv)]);
    assert(spec_track_port(spec_track_node(g, nv), pv) =~= (GraphV {
        nodes: seq![spec_with_port(nv, pv)],
        links: g.links,
        pending: Seq::empty(),
    }));
}

/// An id lookup reports an index inside the collection, holding that id.
proof fn lemma_node_exact_idx_bounds(nodes: Seq<NodeV>, id: u32)
    ensures
        spec_node_idx_by_exact_id(nodes, id) matches Some(i) ==> 0 <= i < nodes.len()
            && nodes[i].id == id,
    decreases nodes.len(),
{
    if nodes.len() > 0 {
        lemma_node_exact_idx_bounds(nodes.drop_first(), id);
    }
}

/// A node stays findable by id under a port attachment anywhere in the
/// collection.
proof fn lemma_exact_idx_update_same_id(nodes: Seq<NodeV>, i: int, n2: NodeV, id: u32)
    requires
        0 <= i < nodes.len(),
        n2.id == nodes[i].id,
    ensures
        spec_node_idx_by_exact_id(nodes.update(i, n2), id) == spec_node_idx_by_exact_id(nodes, id),
    decreases nodes.len(),
{
    if i == 0 {
        assert(nodes.update(0, n2).drop_first() =~= nodes.drop_first());
    } else {
        assert(nodes.update(i, n2).drop_first() =~= nodes.drop_first().update(i - 1, n2));
        lemma_exact_idx_update_same_id(nodes.drop_first(), i - 1, n2, id);
    }
}

/// A port whose node is absent is moved to the not-found list by the drain,
/// never dropped.
proof fn lemma_reconcile_keeps_orphans(
    nodes: Seq<NodeV>,
    pending: Seq<PortV>,
    not_found: Seq<PortV>,
    pv: PortV,
)
    requires
        spec_node_idx_by_exact_id(nodes, pv.node_id) is None,
        pending.contains(pv) || not_found.contains(pv),
    ensures
        spec_reconcile(nodes, pending, not_found).1.contains(pv),
    decreases pending.len(),
{
    if pending.len() == 0 {
        assert(not_found.contains(pv));
    } else {
        let port = pending.last();
        let rest = pending.drop_last();
        if pending.contains(pv) && !rest.contains(pv) {
            let w = choose|w: int| 0 <= w < pending.len() && pending[w] == pv;
            if w < pending.len() - 1 {
                assert(rest[w] == pv);
                assert(rest.contains(pv));
            }
            assert(port == pv);
        }
        lemma_node_exact_idx_bounds(nodes, port.node_id);
        match spec_node_idx_by_exact_id(nodes, port.node_id) {
            Some(i) => {
                assert(port != pv);
                assert(rest.contains(pv) || not_found.contains(pv));
                if spec_has_port_id(nodes[i].ports, port.id) {
                    lemma_reconcile_keeps_orphans(nodes, rest, not_found, pv);
                } else {
                    let nodes2 = nodes.update(i, spec_with_port(nodes[i], port));
                    lemma_exact_idx_update_same_id(
                        nodes,
                        i,
                        spec_with_port(nodes[i], port),
                        pv.node_id,
                    );
                    lemma_reconcile_keeps_orphans(nodes2, rest, not_found, pv);
                }
            },
            None => {
                if port == pv || not_found.contains(pv) {
                    assert(not_found.push(port)[not_found.len() as int] == port);
                    if not_found.contains(pv) {
                        let w = choose|w: int|
                            0 <= w < not_found.len() && not_found[w] == pv;
                        assert(not_found.push(port)[w] == pv);
                    }
                    assert(not_found.push(port).contains(pv));
                } else {
                    assert(rest.contains(pv));
                }
                lemma_reconcile_keeps_orphans(nodes, rest, not_found.push(port), pv);
            },
        }
    }
}

/// A pending port whose node has not appeared survives a reconciliation
/// pass: it stays in the pending set and is never silently dropped.
pub proof fn lemma_orphan_port_stays_pending(g: GraphV, pv: PortV)
    requires
        g.pending.contains(pv),
        forall|i: int| 0 <= i < g.nodes.len() ==> g.nodes[i].id != pv.node_id,
    ensures
        spec_update(g).pending.contains(pv),
{
    if g.nodes.len() == 0 || g.pending.len() == 0 {
    } else {
        lemma_node_exact_none(g.nodes, pv.node_id);
        lemma_reconcile_keeps_orphans(g.nodes, g.pending, Seq::empty(), pv);
    }
}

proof fn lemma_node_exact_found(nodes: Seq<NodeV>, id: u32, i: int)
    requires
        0 <= i < nodes.len(),
        nodes[i].id == id,
        forall|j: int| 0 <= j < i ==> nodes[j].id != id,
    ensures
        spec_node_idx_by_exact_id(nodes, id) == Some(i),
    decreases i,
{
    if i > 0 {
        lemma_node_exact_found(nodes.drop_first(), id, i - 1);
    }
}

proof fn lemma_node_exact_none(nodes: Seq<NodeV>, id: u32)
    requires
        forall|j: int| 0 <= j < nodes.len() ==> nodes[j].id != id,
    ensures
        spec_node_idx_by_exact_id(nodes, id) is None,
    decreases nodes.len(),
{
    if nodes.len() > 0 {
        lemma_node_exact_none(nodes.drop_first(), id);
    }
}

proof fn lemma_node_idx_found(nodes: Seq<NodeV>, id: u32, i: int)
    requires
        0 <= i < nodes.len(),
        spec_node_matches_id(nodes[i], id),
        forall|j: int| 0 <= j < i ==> !spec_node_matches_id(nodes[j], id),
    ensures
        spec_node_idx_by_id(nodes, id) == Some(i),
    decreases i,
{
    if i > 0 {
        lemma_node_idx_found(nodes.drop_first(), id, i - 1);
    }
}

proof fn lemma_node_idx_none(nodes: Seq<NodeV>, id: u32)
    requires
        forall|j: int| 0 <= j < nodes.len() ==> !spec_node_matches_id(nodes[j], id),
    ensures
        spec_node_idx_by_id(nodes, id) is None,
    decreases nodes.len(),
{
    if nodes.len() > 0 {
        lemma_node_idx_none(nodes.drop_first(), id);
    }
}

proof fn lemma_node_name_found(nodes: Seq<NodeV>, name: Seq<char>, i: int)
    requires
        0 <= i < nodes.len(),
        nodes[i].name == name,
        forall|j: int| 0 <= j < i ==> nodes[j].name != name,
    ensures
        spec_node_idx_by_name(nodes, name) == Some(i),
    decreases i,
{
    if i > 0 {
        lemma_node_name_found(nodes.drop_first(), name, i - 1);
    }
}

proof fn lemma_node_name_none(nodes: Seq<NodeV>, name: Seq<char>)
    requires
        forall|j: int| 0 <= j < nodes.len() ==> nodes[j].name != name,
    ensures
        spec_node_idx_by_name(nodes, name) is None,
    decreases nodes.len(),
{
    if nodes.len() > 0 {
        lemma_node_name_none(nodes.drop_first(), name);
    }
}

proof fn lemma_link_idx_found(links: Seq<Link>, id: u32, i: int)
    requires
        0 <= i < links.len(),
        links[i].id == id,
        forall|j: int| 0 <= j < i ==> links[j].id != id,
    ensures
        spec_link_idx(links, id) == Some(i),
    decreases i,
{
    if i > 0 {
        lemma_link_idx_found(links.drop_first(), id, i - 1);
    }
}

proof fn lemma_link_idx_none(links: Seq<Link>, id: u32)
    requires
        forall|j: int| 0 <= j < links.len() ==> links[j].id != id,
    ensures
        spec_link_idx(links, id) is None,
    decreases links.len(),
{
    if links.len() > 0 {
        lemma_link_idx_none(links.drop_first(), id);
    }
}

impl PipeWireObjects {
    /// Attach every pending port whose node has arrived; ports whose node is
    /// still missing survive to the next pass.
    pub fn update_nodes(&mut self)
        ensures
            final(self)@ == spec_update(old(self)@),
    {
        if self.nodes.is_empty() || self.ports_to_be_added.is_empty() {
            return ;
        }
        let mut ports_not_found: Vec<Port> = Vec::new();
        proof {
            assert(ports_not_found@.map_values(|p: Port| p@) =~= Seq::<PortV>::empty());
        }
        while self.ports_to_be_added.len() > 0
            invariant
                spec_reconcile(
                    self@.nodes,
                    self@.pending,
                    ports_not_found@.map_values(|p: Port| p@),
                ) == spec_reconcile(old(self)@.nodes, old(self)@.pending, Seq::<PortV>::empty()),
                self@.links == old(self)@.links,
            decreases self.ports_to_be_added.len(),
        {
            let ghost nodes0 = self@.nodes;
            let ghost pend0 = self@.pending;
            let ghost nf0 = ports_not_found@.map_values(|p: Port| p@);
            let last = self.ports_to_be_added.len() - 1;
            let port = self.ports_to_be_added.remove(last);
            proof {
                assert(self@.pending =~= pend0.drop_last());
                assert(port@ == pend0.last());
            }
            match self.find_node_index_by_exact_id(port.node_id) {
                Some(i) => {
                    proof {
                        assert(self@.nodes[i as int] == self.nodes@[i as int]@);
                    }
                    if self.nodes[i].has_port(&port) {
                        // A duplicate port: the node already owns this id.
                    } else {
                        let ghost nodes_before = self@.nodes;
                        let mut node = self.nodes.remove(i);
                        node.add_port(port);
                        self.nodes.insert(i, node);
                        proof {
                            assert(self@.nodes =~= nodes_before.update(
                                i as int,
                                spec_with_port(nodes_before[i as int], pend0.last()),
                            ));
                        }
                    }
                },
                None => {
                    ports_not_found.push(port);
                    proof {
                        assert(ports_not_found@.map_values(|p: Port| p@) =~= nf0.push(
                            pend0.last(),
                        ));
                    }
                },
            }
        }
        proof {
            assert(self@.pending =~= Seq::<PortV>::empty());
        }
        // Ports whose node has not appeared yet go back to the holding area.
        self.ports_to_be_added.append(&mut ports_not_found);
        proof {
            assert(self@ =~= spec_update(old(self)@));
        }
    }

    /// The index of the first node with exactly the given id, if any.
    fn find_node_index_by_exact_id(&self, id: u32) -> (r: Option<usize>)
        ensures
            match r {
                Some(k) => k < self.nodes.len() && spec_node_idx_by_exact_id(self@.nodes, id)
                    == Some(k as int),
                None => spec_node_idx_by_exact_id(self@.nodes, id) is None,
            },
    {
        let n = self.nodes.len();
        let mut i: usize = 0;
        while i < n
            invariant
                n == self.nodes.len(),
                0 <= i <= n,
                forall|j: int| 0 <= j < i ==> self@.nodes[j].id != id,
            decreases n - i,
        {
            if self.nodes[i].id == id {
                proof {
                    assert(self@.nodes[i as int] == self.nodes@[i as int]@);
                    lemma_node_exact_found(self@.nodes, id, i as int);
                }
                return Some(i);
            }
            proof {
                assert(self@.nodes[i as int] == self.nodes@[i as int]@);
            }
            i += 1;
        }
        proof {
            lemma_node_exact_none(self@.nodes, id);
        }
        None
    }

    /// The index of the first node matching the given id, by its own id or
    /// by one of its ports' ids.
    pub fn find_node_index_by_id(&self, id: u32) -> (r: Option<usize>)
        ensures
            match r {
                Some(k) => k < self.nodes.len() && spec_node_idx_by_id(self@.nodes, id) == Some(
                    k as int,
                ),
                None => spec_node_idx_by_id(self@.nodes, id) is None,
            },
    {
        let n = self.nodes.len();
        let mut i: usize = 0;
        while i < n
            invariant
                n == self.nodes.len(),
                0 <= i <= n,
                forall|j: int| 0 <= j < i ==> !spec_node_matches_id(self@.nodes[j], id),
            decreases n - i,
        {
            proof {
                assert(self@.nodes[i as int] == self.nodes@[i as int]@);
            }
            if self.nodes[i].id == id || self.nodes[i].has_port_of_id(id) {
                proof {
                    lemma_node_idx_found(self@.nodes, id, i as int);
                }
                return Some(i);
            }
            i += 1;
        }
        proof {
            lemma_node_idx_none(self@.nodes, id);
        }
        None
    }

    /// The first node matching the given id, by its own id or by one of its
    /// ports' ids.
    pub fn find_node_by_id(&self, id: u32) -> (r: Option<&Node>)
        ensures
            match r {
                Some(n) => spec_node_idx_by_id(self@.nodes, id) matches Some(k) && n@
                    == self@.nodes[k],
                None => spec_node_idx_by_id(self@.nodes, id) is None,
            },
    {
        match self.find_node_index_by_id(id) {
            Some(k) => {
                proof {
                    assert(self@.nodes[k as int] == self.nodes@[k as int]@);
                }
                Some(&self.nodes[k])
            },
            None => None,
        }
    }

    /// Locate two nodes by their exact ids in one scan.  A later match for
    /// either id overwrites an earlier one, and a node matching both ids is
    /// reported only for the first.
    pub fn find_two_nodes_by_id(&self, first_id: u32, second_id: u32) -> (r: (
        Option<usize>,
        Option<usize>,
    ))
        ensures
            match r.0 {
                Some(k) => k < self.nodes.len() && spec_find_two(
                    self@.nodes,
                    first_id,
                    second_id,
                ).0 == Some(k as int),
                None => spec_find_two(self@.nodes, first_id, second_id).0 is None,
            },
            match r.1 {
                Some(k) => k < self.nodes.len() && spec_find_two(
                    self@.nodes,
                    first_id,
                    second_id,
                ).1 == Some(k as int),
                None => spec_find_two(self@.nodes, first_id, second_id).1 is None,
            },
    {
        let mut first: Option<usize> = None;
        let mut second: Option<usize> = None;
        let n = self.nodes.len();
        let mut i: usize = 0;
        proof {
            assert(self@.nodes.take(0) =~= Seq::<NodeV>::empty());
        }
        while i < n
            invariant
                n == self.nodes.len(),
                0 <= i <= n,
                match first {
                    Some(k) => k < n && spec_find_two(
                        self@.nodes.take(i as int),
                        first_id,
                        second_id,
                    ).0 == Some(k as int),
                    None => spec_find_two(self@.nodes.take(i as int), first_id, second_id).0
                        is None,
                },
                match second {
                    Some(k) => k < n && spec_find_two(
                        self@.nodes.take(i as int),
                        first_id,
                        second_id,
                    ).1 == Some(k as int),
                    None => spec_find_two(self@.nodes.take(i as int), first_id, second_id).1
                        is None,
                },
            decreases n - i,
        {
            proof {
                assert(self@.nodes.take(i as int + 1).drop_last() =~= self@.nodes.take(i as int));
                assert(self@.nodes.take(i as int + 1).last() == self@.nodes[i as int]);
                assert(self@.nodes[i as int] == self.nodes@[i as int]@);
            }
            if self.nodes[i].id == first_id {
                first = Some(i);
            } else if self.nodes[i].id == second_id {
                second = Some(i);
            }
            i += 1;
        }
        proof {
            assert(self@.nodes.take(n as int) =~= self@.nodes);
        }
        (first, second)
    }

    /// The index of the first link with the given id, if any.
    fn find_link_index(&self, id: u32) -> (r: Option<usize>)
        ensures
            match r {
                Some(k) => k < self.links.len() && spec_link_idx(self@.links, id) == Some(
                    k as int,
                ),
                None => spec_link_idx(self@.links, id) is None,
            },
    {
        let n = self.links.len();
        let mut i: usize = 0;
        while i < n
            invariant
                n == self.links.len(),
                0 <= i <= n,
                forall|j: int| 0 <= j < i ==> self@.links[j].id != id,
            decreases n - i,
        {
            if self.links[i].id == id {
                proof {
                    lemma_link_idx_found(self@.links, id, i as int);
                }
                return Some(i);
            }
            i += 1;
        }
        proof {
            lemma_link_idx_none(self@.links, id);
        }
        None
    }

    /// The first link with the given id, if any.
    pub fn find_links_by_id(&self, id: u32) -> (r: Option<&Link>)
        ensures
            match r {
                Some(l) => spec_link_idx(self@.links, id) matches Some(k) && *l == self@.links[k],
                None => spec_link_idx(self@.links, id) is None,
            },
    {
        match self.find_link_index(id) {
            Some(k) => Some(&self.links[k]),
            None => None,
        }
    }

    /// The (output node, input node) pair of the link with the given id.
    pub fn find_linked_nodes_by_link_id(&self, id: u32) -> (r: Option<(u32, u32)>)
        ensures
            match r {
                Some(pair) => spec_link_idx(self@.links, id) matches Some(k) && pair == (
                    self@.links[k].output_node,
                    self@.links[k].input_node,
                ),
                None => spec_link_idx(self@.links, id) is None,
            },
    {
        match self.find_link_index(id) {
            Some(k) => Some((self.links[k].output_node, self.links[k].input_node)),
            None => None,
        }
    }

    /// The id of the first node carrying the given name, if any.
    pub fn find_node_id_by_name(&self, name: &str) -> (r: Option<u32>)
        ensures
            match r {
                Some(nid) => spec_node_idx_by_name(self@.nodes, name@) matches Some(k) && nid
                    == self@.nodes[k].id,
                None => spec_node_idx_by_name(self@.nodes, name@) is None,
            },
    {
        let n = self.nodes.len();
        let mut i: usize = 0;
        while i < n
            invariant
                n == self.nodes.len(),
                0 <= i <= n,
                forall|j: int| 0 <= j < i ==> self@.nodes[j].name != name@,
            decreases n - i,
        {
            proof {
                assert(self@.nodes[i as int] == self.nodes@[i as int]@);
            }
            if str_eq(self.nodes[i].name.as_str(), name) {
                proof {
                    lemma_node_name_found(self@.nodes, name@, i as int);
                }
                return Some(self.nodes[i].id);
            }
            i += 1;
        }
        proof {
            lemma_node_name_none(self@.nodes, name@);
        }
        None
    }

    /// Remove the first node whose own id is the given one; without such a
    /// node the graph is left as it is.  Links are not touched here.
    pub fn remove_node(&mut self, id: u32)
        ensures
            final(self)@.nodes == match spec_node_idx_by_exact_id(old(self)@.nodes, id) {
                Some(k) => old(self)@.nodes.remove(k),
                None => old(self)@.nodes,
            },
            final(self)@.links == old(self)@.links,
            final(self)@.pending == old(self)@.pending,
    {
        match self.find_node_index_by_exact_id(id) {
            Some(k) => {
                let ghost nodes0 = self@.nodes;
                self.nodes.remove(k);
                proof {
                    assert(self@.nodes =~= nodes0.remove(k as int));
                }
            },
            None => {},
        }
    }

    /// Remove the first link with the given id from the graph, reporting the
    /// removed (output node, input node) pair and asking the caller to notify
    /// waiting callers of the removal.  A destroy operation is requested only
    /// when asked for and both endpoint nodes still exist.  Without such a
    /// link, the graph and the effects are untouched.
    pub fn remove_link(&mut self, id: u32, request_destroy: bool, effects: &mut Effects) -> (r:
        Result<(u32, u32), GraphError>)
        ensures
            match r {
                Ok(pair) => spec_link_idx(old(self)@.links, id) matches Some(k) && {
                    let l = old(self)@.links[k];
                    let two = spec_find_two(old(self)@.nodes, l.output_node, l.input_node);
                    &&& pair == (l.output_node, l.input_node)
                    &&& final(self)@.links == old(self)@.links.remove(k)
                    &&& final(self)@.nodes == old(self)@.nodes
                    &&& final(self)@.pending == old(self)@.pending
                    &&& final(effects)@.notifications == old(effects)@.notifications.push(
                        ConnectorEvent::UnlinkUpdate(l.output_node, l.input_node),
                    )
                    &&& final(effects)@.requests == if request_destroy && two.0 is Some && two.1
                        is Some {
                        old(effects)@.requests.push(ServerRequest::DestroyLink(id))
                    } else {
                        old(effects)@.requests
                    }
                },
                Err(e) => {
                    &&& spec_link_idx(old(self)@.links, id) is None
                    &&& e == GraphError::LinkNotFound(id)
                    &&& final(self)@ == old(self)@
                    &&& final(effects)@ == old(effects)@
                },
            },
    {
        let k = match self.find_link_index(id) {
            Some(k) => k,
            None => {
                return Err(GraphError::LinkNotFound(id));
            },
        };
        let output_node = self.links[k].output_node;
        let input_node = self.links[k].input_node;
        let (first, second) = self.find_two_nodes_by_id(output_node, input_node);
        if first.is_some() && second.is_some() {
            if request_destroy {
                effects.request(ServerRequest::DestroyLink(id));
            }
        }
        self.links.remove(k);
        effects.notify(ConnectorEvent::UnlinkUpdate(output_node, input_node));
        Ok((output_node, input_node))
    }
}

} // verus!