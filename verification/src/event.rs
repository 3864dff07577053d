//! Events: outcome notifications sent back to callers, commands received
//! from callers, and the requests the core asks the server to perform.

use crate::link::{spec_decode_link, Link};
use crate::node::{spec_decode_node, spec_link_plan, Node, NodeErrV, NodeError, NodeV};
use crate::objects::{
    spec_find_two, spec_link_idx, spec_node_idx_by_exact_id, spec_node_idx_by_id, spec_track_link,
    spec_track_node, spec_track_port, spec_update, GraphError, GraphV, PipeWireObjects,
};
use crate::port::{spec_decode_port, LinkRequest, Port, PortV};
use crate::utils::{DecodeErrV, DecodeError, Props};
use vstd::prelude::*;

verus! {

/// An outcome notification observed by waiting callers, keyed by the
/// (output node id, input node id) pair that produced it.
#[derive(Debug, Clone, Copy, PartialEq, Eq, Structural)]
pub enum ConnectorEvent {
    NoEvent,
    LinkUpdate(u32, u32),
    LinkFailed(u32, u32),
    UnlinkUpdate(u32, u32),
    UnLinkFailed(u32, u32),
}

/// A caller command: link or unlink two nodes by id.
#[derive(Debug, Clone, Copy, PartialEq, Eq, Structural)]
pub enum PipeWireEvent {
    LinkCommand(u32, u32),
    UnlinkCommand(u32, u32),
}

/// An operation the core asks the server to perform.
#[derive(Debug, Clone, Copy, PartialEq, Eq, Structural)]
pub enum ServerRequest {
    CreateLink(LinkRequest),
    DestroyLink(u32),
}

/// Mathematical image of `Effects`.
pub struct EffectsV {
    pub notifications: Seq<ConnectorEvent>,
    pub requests: Seq<ServerRequest>,
}

/// What one event-handling step asks the surrounding process to do: the
/// notifications to broadcast to waiting callers, and the operations to
/// submit to the server, each in emission order.
#[derive(Debug)]
pub struct Effects {
    pub notifications: Vec<ConnectorEvent>,
    pub requests: Vec<ServerRequest>,
}

impl View for Effects {
    type V = EffectsV;

    open spec fn view(&self) -> EffectsV {
        EffectsV { notifications: self.notifications@, requests: self.requests@ }
    }
}

impl Effects {
    pub fn new() -> (r: Effects)
        ensures
            r@.notifications =~= Seq::<ConnectorEvent>::empty(),
            r@.requests =~= Seq::<ServerRequest>::empty(),
    {
        Effects { notifications: Vec::new(), requests: Vec::new() }
    }

    /// Record a notification to broadcast.
    pub fn notify(&mut self, event: ConnectorEvent)
        ensures
            final(self)@.notifications == old(self)@.notifications.push(event),
            final(self)@.requests == old(self)@.requests,
    {
        self.notifications.push(event);
    }

    /// Record an operation to submit to the server.
    pub fn request(&mut self, req: ServerRequest)
        ensures
            final(self)@.requests == old(self)@.requests.push(req),
            final(self)@.notifications == old(self)@.notifications,
    {
        self.requests.push(req);
    }
}

impl ConnectorEvent {
    /// Whether this notification settles a link command on the given pair:
    /// the connection was established, or the link failed.
    pub fn is_link_outcome(&self, first_node_id: u32, second_node_id: u32) -> (r: bool)
        ensures
            r == (*self == ConnectorEvent::LinkUpdate(first_node_id, second_node_id) || *self
                == ConnectorEvent::LinkFailed(first_node_id, second_node_id)),
    {
        match self {
            ConnectorEvent::LinkUpdate(a, b) => *a == first_node_id && *b == second_node_id,
            ConnectorEvent::LinkFailed(a, b) => *a == first_node_id && *b == second_node_id,
            _ => false,
        }
    }

    /// Whether this notification settles an unlink command on the given
    /// pair: the connection was removed, or the unlink failed.
    pub fn is_unlink_outcome(&self, first_node_id: u32, second_node_id: u32) -> (r: bool)
        ensures
            r == (*self == ConnectorEvent::UnlinkUpdate(first_node_id, second_node_id) || *self
                == ConnectorEvent::UnLinkFailed(first_node_id, second_node_id)),
    {
        match self {
            ConnectorEvent::UnlinkUpdate(a, b) => *a == first_node_id && *b == second_node_id,
            ConnectorEvent::UnLinkFailed(a, b) => *a == first_node_id && *b == second_node_id,
            _ => false,
        }
    }
}

/// The kind tag of a reported object.
#[derive(Debug, Clone, Copy, PartialEq, Eq, Structural)]
pub enum ObjectKind {
    Node,
    Port,
    Link,
    Other,
}

/// A failure to execute a caller command.
#[derive(Debug, Clone, PartialEq)]
pub enum CommandError {
    /// The two endpoint ids are the same.
    SameEndpoint(u32),
    /// One or both endpoints are not in the graph.
    EndpointNotFound(u32, u32),
    /// The linking algorithm rejected the pair of nodes.
    Node(NodeError),
}

/// Mathematical image of a `CommandError`.
pub enum CommandErrV {
    SameEndpoint(u32),
    EndpointNotFound(u32, u32),
    Node(NodeErrV),
}

impl View for CommandError {
    type V = CommandErrV;

    open spec fn view(&self) -> CommandErrV {
        match self {
            CommandError::SameEndpoint(a) => CommandErrV::SameEndpoint(*a),
            CommandError::EndpointNotFound(a, b) => CommandErrV::EndpointNotFound(*a, *b),
            CommandError::Node(e) => CommandErrV::Node(e@),
        }
    }
}

/// What handling one "object appeared" notification yields: the graph after
/// the mutation and a reconciliation pass, plus the notifications emitted; or
/// a decode failure, after which nothing changes.
pub open spec fn spec_handle_global(
    g: GraphV,
    id: u32,
    permissions: u32,
    version: u32,
    kind: ObjectKind,
    m: Seq<(Seq<char>, Seq<char>)>,
) -> Result<(GraphV, Seq<ConnectorEvent>), DecodeErrV> {
    match kind {
        ObjectKind::Node => match spec_decode_node(id, permissions, version, m) {
            Err(e) => Err(e),
            Ok(nv) => Ok((spec_track_node(g, nv), Seq::empty())),
        },
        ObjectKind::Port => match spec_decode_port(id, m) {
            Err(e) => Err(e),
            Ok(pv) => Ok((spec_track_port(g, pv), Seq::empty())),
        },
        ObjectKind::Link => match spec_decode_link(id, m) {
            Err(e) => Err(e),
            Ok(l) => Ok(
                (
                    spec_track_link(g, l),
                    seq![ConnectorEvent::LinkUpdate(l.output_node, l.input_node)],
                ),
            ),
        },
        ObjectKind::Other => Ok((spec_update(g), seq![ConnectorEvent::NoEvent])),
    }
}

/// Track one "object appeared" notification: decode the object by kind, put
/// it into the graph (nodes and ports directly; a link additionally notifies
/// the connection pair), and run a reconciliation pass.  A decode failure
/// drops the object and leaves the graph and the effects untouched.
pub fn handle_global(
    objects: &mut PipeWireObjects,
    id: u32,
    permissions: u32,
    version: u32,
    kind: ObjectKind,
    props: &Props,
    effects: &mut Effects,
) -> (r: Result<(), DecodeError>)
    ensures
        match r {
            Ok(_) => spec_handle_global(old(objects)@, id, permissions, version, kind, props@)
                matches Ok(out) && final(objects)@ == out.0 && final(effects)@.notifications == old(
                effects,
            )@.notifications + out.1 && final(effects)@.requests == old(effects)@.requests,
            Err(e) => spec_handle_global(old(objects)@, id, permissions, version, kind, props@)
                == Err::<(GraphV, Seq<ConnectorEvent>), DecodeErrV>(e@) && final(objects)@ == old(
                objects,
            )@ && final(effects)@ == old(effects)@,
        },
{
    match kind {
        ObjectKind::Node => {
            let node = match Node::new(id, permissions, version, props) {
                Ok(n) => n,
                Err(e) => return Err(e),
            };
            let ghost nv = node@;
            objects.nodes.push(node);
            proof {
                assert(objects@.nodes =~= old(objects)@.nodes.push(nv));
                assert(objects@ =~= (GraphV { nodes: old(objects)@.nodes.push(nv), ..old(objects)@ }));
            }
        },
        ObjectKind::Port => {
            let port = match Port::new(id, props) {
                Ok(p) => p,
                Err(e) => return Err(e),
            };
            let ghost pv = port@;
            objects.ports_to_be_added.push(port);
            proof {
                assert(objects@.pending =~= old(objects)@.pending.push(pv));
                assert(objects@ =~= (GraphV { pending: old(objects)@.pending.push(pv), ..old(objects)@ }));
            }
        },
        ObjectKind::Link => {
            let link = match Link::new(id, props) {
                Ok(l) => l,
                Err(e) => return Err(e),
            };
            let first_id = link.output_node;
            let second_id = link.input_node;
            objects.links.push(link);
            effects.notify(ConnectorEvent::LinkUpdate(first_id, second_id));
            proof {
                assert(objects@ =~= (GraphV { links: old(objects)@.links.push(link), ..old(objects)@ }));
            }
        },
        ObjectKind::Other => {
            effects.notify(ConnectorEvent::NoEvent);
        },
    }
    objects.update_nodes();
    proof {
        match kind {
            ObjectKind::Node => {
                assert(effects@.notifications =~= old(effects)@.notifications + Seq::<
                    ConnectorEvent,
                >::empty());
            },
            ObjectKind::Port => {
                assert(effects@.notifications =~= old(effects)@.notifications + Seq::<
                    ConnectorEvent,
                >::empty());
            },
            ObjectKind::Link => {
                assert(effects@.notifications =~= old(effects)@.notifications + seq![
                    effects@.notifications.last(),
                ]);
            },
            ObjectKind::Other => {
                assert(effects@.notifications =~= old(effects)@.notifications + seq![
                    ConnectorEvent::NoEvent,
                ]);
            },
        }
    }
    Ok(())
}

/// Whether a link references a node as either endpoint.
pub open spec fn spec_link_refs_node(l: Link, nid: u32) -> bool {
    l.output_node == nid || l.input_node == nid
}

/// The links that survive the removal of a node: those referencing it as
/// neither endpoint, in order.
pub open spec fn spec_prune_links(links: Seq<Link>, nid: u32) -> Seq<Link>
    decreases links.len(),
{
    if links.len() == 0 {
        Seq::empty()
    } else {
        let rest = spec_prune_links(links.drop_last(), nid);
        if spec_link_refs_node(links.last(), nid) {
            rest
        } else {
            rest.push(links.last())
        }
    }
}

/// The removal notifications emitted while pruning a node's links, in order.
pub open spec fn spec_prune_notifs(links: Seq<Link>, nid: u32) -> Seq<ConnectorEvent>
    decreases links.len(),
{
    if links.len() == 0 {
        Seq::empty()
    } else {
        let rest = spec_prune_notifs(links.drop_last(), nid);
        if spec_link_refs_node(links.last(), nid) {
            rest.push(ConnectorEvent::UnlinkUpdate(links.last().output_node, links.last().input_node))
        } else {
            rest
        }
    }
}

/// Untrack one "object removed" notification, which carries only a numeric
/// id.  A link with that id is removed first (and the removal notified); only
/// when no link matches is the id resolved against the nodes, and removing a
/// node also removes every link referencing it (each removal notified).  An
/// id matching nothing leaves the graph untouched.  The id spaces of links
/// and nodes are disjoint by a guarantee of the server.
pub fn remove_object(objects: &mut PipeWireObjects, obj_id: u32, effects: &mut Effects)
    ensures
        match spec_link_idx(old(objects)@.links, obj_id) {
            Some(k) => {
                let l = old(objects)@.links[k];
                &&& final(objects)@.links == old(objects)@.links.remove(k)
                &&& final(objects)@.nodes == old(objects)@.nodes
                &&& final(objects)@.pending == old(objects)@.pending
                &&& final(effects)@.notifications == old(effects)@.notifications.push(
                    ConnectorEvent::UnlinkUpdate(l.output_node, l.input_node),
                )
                &&& final(effects)@.requests == old(effects)@.requests
            },
            None => match spec_node_idx_by_id(old(objects)@.nodes, obj_id) {
                Some(i) => {
                    let nid = old(objects)@.nodes[i].id;
                    &&& final(objects)@.nodes == match spec_node_idx_by_exact_id(
                        old(objects)@.nodes,
                        nid,
                    ) {
                        Some(j) => old(objects)@.nodes.remove(j),
                        None => old(objects)@.nodes,
                    }
                    &&& final(objects)@.links == spec_prune_links(old(objects)@.links, nid)
                    &&& final(objects)@.pending == old(objects)@.pending
                    &&& final(effects)@.notifications == old(effects)@.notifications
                        + spec_prune_notifs(old(objects)@.links, nid)
                    &&& final(effects)@.requests == old(effects)@.requests
                },
                None => final(objects)@ == old(objects)@ && final(effects)@ == old(effects)@,
            },
        },
{
    match objects.remove_link(obj_id, false, effects) {
        Ok(_) => {
            return ;
        },
        Err(_) => {},
    }
    let nid = match objects.find_node_by_id(obj_id) {
        Some(n) => n.id,
        None => {
            proof {
                assert(effects@ =~= old(effects)@);
            }
            return ;
        },
    };
    objects.remove_node(nid);
    let ghost nodes_after = objects@.nodes;
    let ghost links0 = objects@.links;
    let ghost notifs0 = effects@.notifications;
    let ghost reqs0 = effects@.requests;
    let mut k: usize = 0;
    let ghost mut p: int = 0;
    proof {
        assert(links0.take(0) =~= Seq::<Link>::empty());
        assert(spec_prune_links(links0.take(0), nid) + links0.skip(0) =~= links0);
        assert(effects@.notifications =~= notifs0 + spec_prune_notifs(links0.take(0), nid));
    }
    while k < objects.links.len()
        invariant
            0 <= p <= links0.len(),
            k as int == spec_prune_links(links0.take(p), nid).len(),
            objects@.links == spec_prune_links(links0.take(p), nid) + links0.skip(p),
            objects@.nodes == nodes_after,
            objects@.pending == old(objects)@.pending,
            effects@.notifications == notifs0 + spec_prune_notifs(links0.take(p), nid),
            effects@.requests == reqs0,
        decreases links0.len() - p,
    {
        proof {
            assert(objects@.links[k as int] == links0.skip(p)[0]);
            assert(links0.skip(p)[0] == links0[p]);
            assert(links0.take(p + 1).drop_last() =~= links0.take(p));
            assert(links0.take(p + 1).last() == links0[p]);
        }
        let l = objects.links[k];
        if l.output_node == nid || l.input_node == nid {
            let ghost links_cur = objects@.links;
            objects.links.remove(k);
            effects.notify(ConnectorEvent::UnlinkUpdate(l.output_node, l.input_node));
            proof {
                p = p + 1;
                assert(objects@.links =~= spec_prune_links(links0.take(p), nid) + links0.skip(p));
            }
        } else {
            k += 1;
            proof {
                p = p + 1;
                assert(objects@.links =~= spec_prune_links(links0.take(p), nid) + links0.skip(p));
            }
        }
    }
    proof {
        assert(links0.skip(p).len() == 0);
        assert(p == links0.len());
        assert(links0.take(p) =~= links0);
    }
}

/// Whether a link connects exactly the given (output node, input node) pair.
pub open spec fn spec_link_matches_pair(l: Link, source_id: u32, target_id: u32) -> bool {
    l.output_node == source_id && l.input_node == target_id
}

/// Whether some link connects the given pair.
pub open spec fn spec_has_matching(links: Seq<Link>, source_id: u32, target_id: u32) -> bool {
    exists|i: int| 0 <= i < links.len() && spec_link_matches_pair(links[i], source_id, target_id)
}

/// The links that survive an unlink of the pair: those connecting some other
/// pair, in order.
pub open spec fn spec_links_not_matching(links: Seq<Link>, source_id: u32, target_id: u32) -> Seq<
    Link,
>
    decreases links.len(),
{
    if links.len() == 0 {
        Seq::empty()
    } else {
        let rest = spec_links_not_matching(links.drop_last(), source_id, target_id);
        if spec_link_matches_pair(links.last(), source_id, target_id) {
            rest
        } else {
            rest.push(links.last())
        }
    }
}

/// One removal notification per removed link, in order.
pub open spec fn spec_unlink_notifs(links: Seq<Link>, source_id: u32, target_id: u32) -> Seq<
    ConnectorEvent,
>
    decreases links.len(),
{
    if links.len() == 0 {
        Seq::empty()
    } else {
        let rest = spec_unlink_notifs(links.drop_last(), source_id, target_id);
        if spec_link_matches_pair(links.last(), source_id, target_id) {
            rest.push(ConnectorEvent::UnlinkUpdate(source_id, target_id))
        } else {
            rest
        }
    }
}

/// One destroy operation per removed link, in order.
pub open spec fn spec_unlink_requests(links: Seq<Link>, source_id: u32, target_id: u32) -> Seq<
    ServerRequest,
>
    decreases links.len(),
{
    if links.len() == 0 {
        Seq::empty()
    } else {
        let rest = spec_unlink_requests(links.drop_last(), source_id, target_id);
        if spec_link_matches_pair(links.last(), source_id, target_id) {
            rest.push(ServerRequest::DestroyLink(links.last().id))
        } else {
            rest
        }
    }
}

/// Removing nothing keeps every link.
proof fn lemma_no_match_keeps_links(links: Seq<Link>, source_id: u32, target_id: u32)
    requires
        !spec_has_matching(links, source_id, target_id),
    ensures
        spec_links_not_matching(links, source_id, target_id) == links,
    decreases links.len(),
{
    if links.len() > 0 {
        assert(!spec_has_matching(links.drop_last(), source_id, target_id));
        lemma_no_match_keeps_links(links.drop_last(), source_id, target_id);
        assert(spec_links_not_matching(links, source_id, target_id) =~= links);
    }
}

fn links_match_exists(links: &Vec<Link>, source_id: u32, target_id: u32) -> (r: bool)
    ensures
        r == spec_has_matching(links@, source_id, target_id),
{
    let n = links.len();
    let mut i: usize = 0;
    while i < n
        invariant
            n == links.len(),
            0 <= i <= n,
            forall|j: int| 0 <= j < i ==> !spec_link_matches_pair(links@[j], source_id, target_id),
        decreases n - i,
    {
        if links[i].output_node == source_id && links[i].input_node == target_id {
            return true;
        }
        i += 1;
    }
    false
}

/// Remove every link connecting the pair, notifying one removal per link and
/// requesting its destruction from the server while both endpoint nodes
/// still exist.  Without any matching link a removal is still notified, so
/// that unlinking an unconnected pair succeeds (the idempotent-unlink
/// policy); this deliberately differs from linking, where a missing endpoint
/// is a failure.
pub fn unlink_command(
    objects: &mut PipeWireObjects,
    source_id: u32,
    target_id: u32,
    effects: &mut Effects,
) -> (r: Result<(), GraphError>)
    ensures
        r is Ok,
        final(objects)@.nodes == old(objects)@.nodes,
        final(objects)@.pending == old(objects)@.pending,
        final(objects)@.links == spec_links_not_matching(old(objects)@.links, source_id, target_id),
        if spec_has_matching(old(objects)@.links, source_id, target_id) {
            let two = spec_find_two(old(objects)@.nodes, source_id, target_id);
            &&& final(effects)@.notifications == old(effects)@.notifications + spec_unlink_notifs(
                old(objects)@.links,
                source_id,
                target_id,
            )
            &&& final(effects)@.requests == if two.0 is Some && two.1 is Some {
                old(effects)@.requests + spec_unlink_requests(
                    old(objects)@.links,
                    source_id,
                    target_id,
                )
            } else {
                old(effects)@.requests
            }
        } else {
            &&& final(effects)@.notifications == old(effects)@.notifications.push(
                ConnectorEvent::UnlinkUpdate(source_id, target_id),
            )
            &&& final(effects)@.requests == old(effects)@.requests
        },
{
    if !links_match_exists(&objects.links, source_id, target_id) {
        effects.notify(ConnectorEvent::UnlinkUpdate(source_id, target_id));
        proof {
            lemma_no_match_keeps_links(old(objects)@.links, source_id, target_id);
        }
        return Ok(());
    }
    let (first, second) = objects.find_two_nodes_by_id(source_id, target_id);
    let both = first.is_some() && second.is_some();
    let ghost links0 = objects@.links;
    let ghost notifs0 = effects@.notifications;
    let ghost reqs0 = effects@.requests;
    let mut k: usize = 0;
    let ghost mut p: int = 0;
    proof {
        assert(links0.take(0) =~= Seq::<Link>::empty());
        assert(spec_links_not_matching(links0.take(0), source_id, target_id) + links0.skip(0)
            =~= links0);
    }
    while k < objects.links.len()
        invariant
            0 <= p <= links0.len(),
            k as int == spec_links_not_matching(links0.take(p), source_id, target_id).len(),
            objects@.links == spec_links_not_matching(links0.take(p), source_id, target_id)
                + links0.skip(p),
            objects@.nodes == old(objects)@.nodes,
            objects@.pending == old(objects)@.pending,
            effects@.notifications == notifs0 + spec_unlink_notifs(
                links0.take(p),
                source_id,
                target_id,
            ),
            effects@.requests == if both {
                reqs0 + spec_unlink_requests(links0.take(p), source_id, target_id)
            } else {
                reqs0
            },
        decreases links0.len() - p,
    {
        proof {
            assert(objects@.links[k as int] == links0.skip(p)[0]);
            assert(links0.skip(p)[0] == links0[p]);
            assert(links0.take(p + 1).drop_last() =~= links0.take(p));
            assert(links0.take(p + 1).last() == links0[p]);
        }
        let l = objects.links[k];
        if l.output_node == source_id && l.input_node == target_id {
            if both {
                effects.request(ServerRequest::DestroyLink(l.id));
            }
            objects.links.remove(k);
            effects.notify(ConnectorEvent::UnlinkUpdate(source_id, target_id));
            proof {
                p = p + 1;
                assert(objects@.links =~= spec_links_not_matching(
                    links0.take(p),
                    source_id,
                    target_id,
                ) + links0.skip(p));
            }
        } else {
            k += 1;
            proof {
                p = p + 1;
                assert(objects@.links =~= spec_links_not_matching(
                    links0.take(p),
                    source_id,
                    target_id,
                ) + links0.skip(p));
            }
        }
    }
    proof {
        assert(links0.skip(p).len() == 0);
        assert(p == links0.len());
        assert(links0.take(p) =~= links0);
    }
    Ok(())
}

/// The create operations for a computed plan, in plan order.
pub open spec fn spec_create_requests(plan: Seq<LinkRequest>) -> Seq<ServerRequest>
    decreases plan.len(),
{
    if plan.len() == 0 {
        Seq::empty()
    } else {
        spec_create_requests(plan.drop_last()).push(ServerRequest::CreateLink(plan.last()))
    }
}

/// What executing a link command yields: the connection requests of the
/// matching plan, or why the command is rejected.  Linking a node to itself
/// always fails, and so does linking where either endpoint is unknown.
pub open spec fn spec_link_command(g: GraphV, source_id: u32, target_id: u32) -> Result<
    Seq<LinkRequest>,
    CommandErrV,
> {
    if source_id == target_id {
        Err(CommandErrV::SameEndpoint(source_id))
    } else {
        match spec_find_two(g.nodes, source_id, target_id) {
            (Some(i), Some(j)) => match spec_link_plan(g.nodes[i], g.nodes[j]) {
                Ok(plan) => Ok(plan),
                Err(e) => Err(CommandErrV::Node(e)),
            },
            _ => Err(CommandErrV::EndpointNotFound(source_id, target_id)),
        }
    }
}

/// Execute a link command: locate both nodes, compute the matching plan, and
/// request one connection per planned pair.  The graph itself is never
/// mutated here; connections only enter it when the server later confirms
/// them.  On failure nothing is requested.
pub fn link_command(
    objects: &mut PipeWireObjects,
    source_id: u32,
    target_id: u32,
    effects: &mut Effects,
) -> (r: Result<(), CommandError>)
    ensures
        final(objects)@ == old(objects)@,
        final(effects)@.notifications == old(effects)@.notifications,
        match r {
            Ok(_) => spec_link_command(old(objects)@, source_id, target_id) matches Ok(plan)
                && final(effects)@.requests == old(effects)@.requests + spec_create_requests(plan),
            Err(e) => spec_link_command(old(objects)@, source_id, target_id) == Err::<
                Seq<LinkRequest>,
                CommandErrV,
            >(e@) && final(effects)@.requests == old(effects)@.requests,
        },
{
    if source_id == target_id {
        return Err(CommandError::SameEndpoint(source_id));
    }
    let (first, second) = objects.find_two_nodes_by_id(source_id, target_id);
    let (i, j) = match (first, second) {
        (Some(i), Some(j)) => (i, j),
        _ => {
            return Err(CommandError::EndpointNotFound(source_id, target_id));
        },
    };
    proof {
        assert(objects@.nodes[i as int] == objects.nodes@[i as int]@);
        assert(objects@.nodes[j as int] == objects.nodes@[j as int]@);
    }
    let plan = match self_link_device(objects, i, j) {
        Ok(p) => p,
        Err(e) => {
            return Err(CommandError::Node(e));
        },
    };
    let n = plan.len();
    let mut k: usize = 0;
    let ghost reqs0 = effects@.requests;
    proof {
        assert(plan@.take(0) =~= Seq::<LinkRequest>::empty());
        assert(effects@.requests =~= reqs0 + spec_create_requests(plan@.take(0)));
    }
    while k < n
        invariant
            n == plan.len(),
            0 <= k <= n,
            effects@.requests == reqs0 + spec_create_requests(plan@.take(k as int)),
            effects@.notifications == old(effects)@.notifications,
        decreases n - k,
    {
        proof {
            assert(plan@.take(k as int + 1).drop_last() =~= plan@.take(k as int));
            assert(plan@.take(k as int + 1).last() == plan@[k as int]);
        }
        effects.request(ServerRequest::CreateLink(plan[k]));
        k += 1;
    }
    proof {
        assert(plan@.take(n as int) =~= plan@);
    }
    Ok(())
}

/// Compute the matching plan between two nodes of the graph, given by index.
fn self_link_device(objects: &PipeWireObjects, i: usize, j: usize) -> (r: Result<
    Vec<LinkRequest>,
    NodeError,
>)
    requires
        i < objects.nodes.len(),
        j < objects.nodes.len(),
    ensures
        match r {
            Ok(reqs) => spec_link_plan(objects@.nodes[i as int], objects@.nodes[j as int])
                == Ok::<Seq<LinkRequest>, NodeErrV>(reqs@),
            Err(e) => spec_link_plan(objects@.nodes[i as int], objects@.nodes[j as int]) == Err::<
                Seq<LinkRequest>,
                NodeErrV,
            >(e@),
        },
{
    proof {
        assert(objects@.nodes[i as int] == objects.nodes@[i as int]@);
        assert(objects@.nodes[j as int] == objects.nodes@[j as int]@);
    }
    objects.nodes[i].link_device(&objects.nodes[j])
}

impl PipeWireEvent {
    /// Execute a caller command against the graph.  A failed link command
    /// turns into a `LinkFailed` notification for the pair rather than an
    /// error to the event loop; unlinking succeeds on any pair.
    pub fn handle(&self, objects: &mut PipeWireObjects, effects: &mut Effects) -> (r: Result<
        (),
        ConnectorEvent,
    >)
        ensures
            match *self {
                PipeWireEvent::LinkCommand(s, t) => {
                    &&& final(objects)@ == old(objects)@
                    &&& final(effects)@.notifications == old(effects)@.notifications
                    &&& match r {
                        Ok(_) => spec_link_command(old(objects)@, s, t) matches Ok(plan)
                            && final(effects)@.requests == old(effects)@.requests
                            + spec_create_requests(plan),
                        Err(ev) => ev == ConnectorEvent::LinkFailed(s, t) && spec_link_command(
                            old(objects)@,
                            s,
                            t,
                        ) is Err && final(effects)@.requests == old(effects)@.requests,
                    }
                },
                PipeWireEvent::UnlinkCommand(s, t) => {
                    &&& r is Ok
                    &&& final(objects)@.nodes == old(objects)@.nodes
                    &&& final(objects)@.pending == old(objects)@.pending
                    &&& final(objects)@.links == spec_links_not_matching(old(objects)@.links, s, t)
                    &&& if spec_has_matching(old(objects)@.links, s, t) {
                        let two = spec_find_two(old(objects)@.nodes, s, t);
                        &&& final(effects)@.notifications == old(effects)@.notifications
                            + spec_unlink_notifs(old(objects)@.links, s, t)
                        &&& final(effects)@.requests == if two.0 is Some && two.1 is Some {
                            old(effects)@.requests + spec_unlink_requests(old(objects)@.links, s, t)
                        } else {
                            old(effects)@.requests
                        }
                    } else {
                        &&& final(effects)@.notifications == old(effects)@.notifications.push(
                            ConnectorEvent::UnlinkUpdate(s, t),
                        )
                        &&& final(effects)@.requests == old(effects)@.requests
                    }
                },
            },
    {
        match self {
            PipeWireEvent::LinkCommand(source_id, target_id) => {
                match link_command(objects, *source_id, *target_id, effects) {
                    Ok(_) => Ok(()),
                    Err(_) => Err(ConnectorEvent::LinkFailed(*source_id, *target_id)),
                }
            },
            PipeWireEvent::UnlinkCommand(source_id, target_id) => {
                match unlink_command(objects, *source_id, *target_id, effects) {
                    Ok(_) => Ok(()),
                    Err(_) => Err(ConnectorEvent::UnLinkFailed(*source_id, *target_id)),
                }
            },
        }
    }
}

} // verus!