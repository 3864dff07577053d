//! Nodes: routable devices owning an ordered collection of ports, and the
//! channel-matching algorithm used to link two nodes.

use crate::port::{
    spec_decode_port, spec_pair_error, AudioChannel, LinkRequest, Port, PortDirection, PortErrV,
    PortError, PortV,
};
use crate::utils::{spec_lookup, val, val_opt, DecodeErrV, DecodeError, Props};
use vstd::prelude::*;

verus! {

/// A failure to link two nodes.
#[derive(Debug, Clone, PartialEq)]
pub enum NodeError {
    PortError(PortError),
    IncorrectTypeOfChannelDirection(String, PortDirection),
}

/// Mathematical image of a `NodeError`.
pub enum NodeErrV {
    PortError(PortErrV),
    IncorrectTypeOfChannelDirection(Seq<char>, PortDirection),
}

impl View for NodeError {
    type V = NodeErrV;

    open spec fn view(&self) -> NodeErrV {
        match self {
            NodeError::PortError(e) => NodeErrV::PortError(e@),
            NodeError::IncorrectTypeOfChannelDirection(n, d) => {
                NodeErrV::IncorrectTypeOfChannelDirection(n@, *d)
            },
        }
    }
}

/// A routable device in the server's graph.
#[derive(Debug)]
pub struct Node {
    pub id: u32,
    pub name: String,
    pub description: Option<String>,
    pub nick: Option<String>,
    pub permissions: u32,
    pub version: u32,
    pub object_serial: String,
    pub factory_id: Option<String>,
    pub object_path: Option<String>,
    pub client_id: Option<String>,
    pub device_id: Option<String>,
    pub priority_session: Option<String>,
    pub priority_driver: Option<String>,
    pub media_class: Option<String>,
    pub media_role: Option<String>,
    pub client_api: Option<String>,
    pub application_name: Option<String>,
    pub ports: Vec<Port>,
}

/// Mathematical image of a `Node`.
pub struct NodeV {
    pub id: u32,
    pub name: Seq<char>,
    pub description: Option<Seq<char>>,
    pub nick: Option<Seq<char>>,
    pub permissions: u32,
    pub version: u32,
    pub object_serial: Seq<char>,
    pub factory_id: Option<Seq<char>>,
    pub object_path: Option<Seq<char>>,
    pub client_id: Option<Seq<char>>,
    pub device_id: Option<Seq<char>>,
    pub priority_session: Option<Seq<char>>,
    pub priority_driver: Option<Seq<char>>,
    pub media_class: Option<Seq<char>>,
    pub media_role: Option<Seq<char>>,
    pub client_api: Option<Seq<char>>,
    pub application_name: Option<Seq<char>>,
    pub ports: Seq<PortV>,
}

/// The view of an optional string.
pub open spec fn opt_view(o: Option<String>) -> Option<Seq<char>> {
    match o {
        Some(s) => Some(s@),
        None => None,
    }
}

impl View for Node {
    type V = NodeV;

    open spec fn view(&self) -> NodeV {
        NodeV {
            id: self.id,
            name: self.name@,
            description: opt_view(self.description),
            nick: opt_view(self.nick),
            permissions: self.permissions,
            version: self.version,
            object_serial: self.object_serial@,
            factory_id: opt_view(self.factory_id),
            object_path: opt_view(self.object_path),
            client_id: opt_view(self.client_id),
            device_id: opt_view(self.device_id),
            priority_session: opt_view(self.priority_session),
            priority_driver: opt_view(self.priority_driver),
            media_class: opt_view(self.media_class),
            media_role: opt_view(self.media_role),
            client_api: opt_view(self.client_api),
            application_name: opt_view(self.application_name),
            ports: self.ports@.map_values(|p: Port| p@),
        }
    }
}

/// What decoding a node property dictionary yields: the typed node with no
/// ports yet, or the first decode failure in reading order.
pub open spec fn spec_decode_node(
    id: u32,
    permissions: u32,
    version: u32,
    m: Seq<(Seq<char>, Seq<char>)>,
) -> Result<NodeV, DecodeErrV> {
    match spec_lookup(m, "node.name"@) {
        None => Err(DecodeErrV::MissingKey("node.name"@)),
        Some(name) => match spec_lookup(m, "object.serial"@) {
            None => Err(DecodeErrV::MissingKey("object.serial"@)),
            Some(serial) => Ok(
                NodeV {
                    id,
                    name,
                    description: spec_lookup(m, "node.description"@),
                    nick: spec_lookup(m, "node.nick"@),
                    permissions,
                    version,
                    object_serial: serial,
                    factory_id: spec_lookup(m, "factory.id"@),
                    object_path: spec_lookup(m, "object.path"@),
                    client_id: spec_lookup(m, "client.id"@),
                    device_id: spec_lookup(m, "device.id"@),
                    priority_session: spec_lookup(m, "priority.session"@),
                    priority_driver: spec_lookup(m, "priority.driver"@),
                    media_class: spec_lookup(m, "media.class"@),
                    media_role: spec_lookup(m, "media.role"@),
                    client_api: spec_lookup(m, "client.api"@),
                    application_name: spec_lookup(m, "application.name"@),
                    ports: Seq::empty(),
                },
            ),
        },
    }
}

/// Whether some port in the sequence has the given direction.
pub open spec fn spec_has_direction(ports: Seq<PortV>, d: PortDirection) -> bool {
    exists|i: int| 0 <= i < ports.len() && ports[i].direction == d
}

/// Whether some port in the sequence has the given id.
pub open spec fn spec_has_port_id(ports: Seq<PortV>, id: u32) -> bool {
    exists|i: int| 0 <= i < ports.len() && ports[i].id == id
}

/// The first port with output direction, if any.
pub open spec fn spec_first_out_idx(ports: Seq<PortV>) -> Option<int>
    decreases ports.len(),
{
    if ports.len() == 0 {
        None
    } else if ports[0].direction == PortDirection::Out {
        Some(0)
    } else {
        match spec_first_out_idx(ports.drop_first()) {
            Some(i) => Some(i + 1),
            None => None,
        }
    }
}

/// The first port tagged with the given audio channel role, if any.
pub open spec fn spec_find_channel_idx(ports: Seq<PortV>, ch: AudioChannel) -> Option<int>
    decreases ports.len(),
{
    if ports.len() == 0 {
        None
    } else if ports[0].audio_channel == ch {
        Some(0)
    } else {
        match spec_find_channel_idx(ports.drop_first(), ch) {
            Some(i) => Some(i + 1),
            None => None,
        }
    }
}

proof fn lemma_first_out_found(ports: Seq<PortV>, i: int)
    requires
        0 <= i < ports.len(),
        ports[i].direction == PortDirection::Out,
        forall|j: int| 0 <= j < i ==> ports[j].direction != PortDirection::Out,
    ensures
        spec_first_out_idx(ports) == Some(i),
    decreases i,
{
    if i > 0 {
        lemma_first_out_found(ports.drop_first(), i - 1);
    }
}

proof fn lemma_first_out_none(ports: Seq<PortV>)
    requires
        forall|j: int| 0 <= j < ports.len() ==> ports[j].direction != PortDirection::Out,
    ensures
        spec_first_out_idx(ports) is None,
    decreases ports.len(),
{
    if ports.len() > 0 {
        lemma_first_out_none(ports.drop_first());
    }
}

proof fn lemma_find_channel_found(ports: Seq<PortV>, ch: AudioChannel, i: int)
    requires
        0 <= i < ports.len(),
        ports[i].audio_channel == ch,
        forall|j: int| 0 <= j < i ==> ports[j].audio_channel != ch,
    ensures
        spec_find_channel_idx(ports, ch) == Some(i),
    decreases i,
{
    if i > 0 {
        lemma_find_channel_found(ports.drop_first(), ch, i - 1);
    }
}

proof fn lemma_find_channel_none(ports: Seq<PortV>, ch: AudioChannel)
    requires
        forall|j: int| 0 <= j < ports.len() ==> ports[j].audio_channel != ch,
    ensures
        spec_find_channel_idx(ports, ch) is None,
    decreases ports.len(),
{
    if ports.len() > 0 {
        lemma_find_channel_none(ports.drop_first(), ch);
    }
}

/// The request connecting an output port to an input port.
pub open spec fn spec_request(out_port: PortV, in_port: PortV) -> LinkRequest {
    LinkRequest {
        output_node: out_port.node_id,
        output_port: out_port.id,
        input_node: in_port.node_id,
        input_port: in_port.id,
    }
}

/// The exact-match pass over the first `i` source ports: each output port is
/// paired with the first target port carrying the same audio channel role.
/// A same-role target port that is not an input port fails the whole pass.
pub open spec fn spec_exact_pass(src: Seq<PortV>, dst: Seq<PortV>, i: int) -> Result<
    Seq<LinkRequest>,
    PortErrV,
>
    decreases i,
{
    if i <= 0 {
        Ok(Seq::empty())
    } else {
        match spec_exact_pass(src, dst, i - 1) {
            Err(e) => Err(e),
            Ok(acc) => {
                let p = src[i - 1];
                if p.direction == PortDirection::In {
                    Ok(acc)
                } else {
                    match spec_find_channel_idx(dst, p.audio_channel) {
                        None => Ok(acc),
                        Some(j) => {
                            if dst[j].direction != PortDirection::In {
                                Err(spec_pair_error(p, dst[j]))
                            } else {
                                Ok(acc.push(spec_request(p, dst[j])))
                            }
                        },
                    }
                }
            },
        }
    }
}

/// Once the exact-match pass has failed on some pair, taking more source
/// ports into account does not change the failure.
proof fn lemma_exact_pass_err_persists(src: Seq<PortV>, dst: Seq<PortV>, k: int, n: int)
    requires
        0 <= k <= n,
        spec_exact_pass(src, dst, k) is Err,
    ensures
        spec_exact_pass(src, dst, n) == spec_exact_pass(src, dst, k),
    decreases n - k,
{
    if k < n {
        lemma_exact_pass_err_persists(src, dst, k, n - 1);
    }
}

/// The fallback pass: the chosen output port is paired with every input port
/// of the target, in target order.
pub open spec fn spec_fallback_pairs(f: PortV, dst: Seq<PortV>) -> Seq<LinkRequest>
    decreases dst.len(),
{
    if dst.len() == 0 {
        Seq::empty()
    } else {
        let rest = spec_fallback_pairs(f, dst.drop_last());
        if dst.last().direction == PortDirection::In {
            rest.push(spec_request(f, dst.last()))
        } else {
            rest
        }
    }
}

/// The fallback plan: the first output port of the source is connected to
/// every input port of the target.
pub open spec fn spec_fallback_plan(src: NodeV, dst: NodeV) -> Result<Seq<LinkRequest>, NodeErrV> {
    match spec_first_out_idx(src.ports) {
        None => Err(NodeErrV::IncorrectTypeOfChannelDirection(dst.name, PortDirection::In)),
        Some(i) => Ok(spec_fallback_pairs(src.ports[i], dst.ports)),
    }
}

/// The connection requests that linking `src` to `dst` issues, or why no link
/// is possible: no output on the source, no input on the target, or a failed
/// pairing during the exact-match pass.  The exact-match pass only runs when
/// the two nodes have the same number of ports, and the fallback only when
/// the exact-match pass connected nothing.
pub open spec fn spec_link_plan(src: NodeV, dst: NodeV) -> Result<Seq<LinkRequest>, NodeErrV> {
    if !spec_has_direction(src.ports, PortDirection::Out) {
        Err(NodeErrV::IncorrectTypeOfChannelDirection(src.name, PortDirection::Out))
    } else if !spec_has_direction(dst.ports, PortDirection::In) {
        Err(NodeErrV::IncorrectTypeOfChannelDirection(dst.name, PortDirection::In))
    } else if src.ports.len() == dst.ports.len() {
        match spec_exact_pass(src.ports, dst.ports, src.ports.len() as int) {
            Err(e) => Err(NodeErrV::PortError(e)),
            Ok(pairs) => if pairs.len() > 0 {
                Ok(pairs)
            } else {
                spec_fallback_plan(src, dst)
            },
        }
    } else {
        spec_fallback_plan(src, dst)
    }
}

impl Node {
    /// Decode a node from its reported id, permission bits, version and
    /// property dictionary.  A decoded node owns no ports yet.
    pub fn new(id: u32, permissions: u32, version: u32, props: &Props) -> (r: Result<
        Node,
        DecodeError,
    >)
        ensures
            match r {
                Ok(n) => spec_decode_node(id, permissions, version, props@) == Ok::<
                    NodeV,
                    DecodeErrV,
                >(n@),
                Err(e) => spec_decode_node(id, permissions, version, props@) == Err::<
                    NodeV,
                    DecodeErrV,
                >(e@),
            },
    {
        let name = match val(props, "node.name") {
            Ok(v) => v,
            Err(e) => return Err(e),
        };
        let description = val_opt(props, "node.description");
        let nick = val_opt(props, "node.nick");
        let object_serial = match val(props, "object.serial") {
            Ok(v) => v,
            Err(e) => return Err(e),
        };
        let node = Node {
            id,
            name,
            description,
            nick,
            permissions,
            version,
            object_serial,
            factory_id: val_opt(props, "factory.id"),
            object_path: val_opt(props, "object.path"),
            client_id: val_opt(props, "client.id"),
            device_id: val_opt(props, "device.id"),
            priority_session: val_opt(props, "priority.session"),
            priority_driver: val_opt(props, "priority.driver"),
            media_class: val_opt(props, "media.class"),
            media_role: val_opt(props, "media.role"),
            client_api: val_opt(props, "client.api"),
            application_name: val_opt(props, "application.name"),
            ports: Vec::new(),
        };
        proof {
            assert(node.ports@.map_values(|p: Port| p@) =~= Seq::<PortV>::empty());
        }
        Ok(node)
    }

    /// The names of the owned ports, in order.
    pub fn get_port_names(&self) -> (r: Vec<String>)
        ensures
            r@.map_values(|s: String| s@) =~= self@.ports.map_values(|p: PortV| p.name),
    {
        let mut names: Vec<String> = Vec::new();
        let n = self.ports.len();
        let mut i: usize = 0;
        while i < n
            invariant
                n == self.ports.len(),
                0 <= i <= n,
                names@.len() == i,
                forall|j: int| 0 <= j < i ==> names@[j]@ == self@.ports[j].name,
        decreases n - i,
        {
            names.push(self.ports[i].name.clone());
            i += 1;
        }
        names
    }

    /// The port with the given id, if this node owns one.
    pub fn get_port_by_id(&self, port_id: u32) -> (r: Option<&Port>)
        ensures
            match r {
                Some(p) => spec_has_port_id(self@.ports, port_id) && p.id == port_id,
                None => !spec_has_port_id(self@.ports, port_id),
            },
    {
        let n = self.ports.len();
        let mut i: usize = 0;
        while i < n
            invariant
                n == self.ports.len(),
                0 <= i <= n,
                forall|j: int| 0 <= j < i ==> self@.ports[j].id != port_id,
            decreases n - i,
        {
            if self.ports[i].id == port_id {
                proof {
                    assert(self@.ports[i as int] == self.ports@[i as int]@);
                }
                return Some(&self.ports[i]);
            }
            proof {
                assert(self@.ports[i as int] == self.ports@[i as int]@);
            }
            i += 1;
        }
        None
    }

    /// Attach a port at the end of this node's port collection; nothing else
    /// changes.
    pub fn add_port(&mut self, port: Port)
        ensures
            final(self)@ == (NodeV { ports: old(self)@.ports.push(port@), ..old(self)@ }),
    {
        self.ports.push(port);
        proof {
            assert(self@.ports =~= old(self)@.ports.push(port@));
        }
    }

    /// Whether this node owns a port with the same id as the given one.
    pub fn has_port(&self, port: &Port) -> (r: bool)
        ensures
            r == spec_has_port_id(self@.ports, port@.id),
    {
        self.has_port_of_id(port.id)
    }

    /// Whether this node owns a port with the given id.
    pub fn has_port_of_id(&self, port_id: u32) -> (r: bool)
        ensures
            r == spec_has_port_id(self@.ports, port_id),
    {
        let n = self.ports.len();
        let mut i: usize = 0;
        while i < n
            invariant
                n == self.ports.len(),
                0 <= i <= n,
                forall|j: int| 0 <= j < i ==> self@.ports[j].id != port_id,
            decreases n - i,
        {
            if self.ports[i].id == port_id {
                proof {
                    assert(self@.ports[i as int] == self.ports@[i as int]@);
                }
                return true;
            }
            proof {
                assert(self@.ports[i as int] == self.ports@[i as int]@);
            }
            i += 1;
        }
        false
    }

    /// Whether this node owns a port with the given direction.
    fn has_port_with_direction(&self, d: PortDirection) -> (r: bool)
        ensures
            r == spec_has_direction(self@.ports, d),
    {
        let n = self.ports.len();
        let mut i: usize = 0;
        while i < n
            invariant
                n == self.ports.len(),
                0 <= i <= n,
                forall|j: int| 0 <= j < i ==> self@.ports[j].direction != d,
            decreases n - i,
        {
            if self.ports[i].direction == d {
                proof {
                    assert(self@.ports[i as int] == self.ports@[i as int]@);
                }
                return true;
            }
            proof {
                assert(self@.ports[i as int] == self.ports@[i as int]@);
            }
            i += 1;
        }
        false
    }

    /// The index of the first output port, if any.
    fn find_first_out(&self) -> (r: Option<usize>)
        ensures
            match r {
                Some(k) => k < self.ports.len() && self@.ports[k as int].direction
                    == PortDirection::Out && spec_first_out_idx(self@.ports) == Some(k as int),
                None => spec_first_out_idx(self@.ports) is None && !spec_has_direction(
                    self@.ports,
                    PortDirection::Out,
                ),
            },
    {
        let n = self.ports.len();
        let mut i: usize = 0;
        while i < n
            invariant
                n == self.ports.len(),
                0 <= i <= n,
                forall|j: int| 0 <= j < i ==> self@.ports[j].direction != PortDirection::Out,
            decreases n - i,
        {
            if self.ports[i].direction == PortDirection::Out {
                proof {
                    lemma_first_out_found(self@.ports, i as int);
                }
                return Some(i);
            }
            i += 1;
        }
        proof {
            lemma_first_out_none(self@.ports);
        }
        None
    }

    /// The index of the first port tagged with the given role, if any.
    fn find_port_by_channel(&self, ch: AudioChannel) -> (r: Option<usize>)
        ensures
            match r {
                Some(k) => k < self.ports.len() && spec_find_channel_idx(self@.ports, ch) == Some(
                    k as int,
                ),
                None => spec_find_channel_idx(self@.ports, ch) is None,
            },
    {
        let n = self.ports.len();
        let mut i: usize = 0;
        while i < n
            invariant
                n == self.ports.len(),
                0 <= i <= n,
                forall|j: int| 0 <= j < i ==> self@.ports[j].audio_channel != ch,
            decreases n - i,
        {
            if self.ports[i].audio_channel == ch {
                proof {
                    lemma_find_channel_found(self@.ports, ch, i as int);
                }
                return Some(i);
            }
            i += 1;
        }
        proof {
            lemma_find_channel_none(self@.ports, ch);
        }
        None
    }

    /// Compute the connection requests that link this node's output ports to
    /// the input ports of `input_device`: the exact-match pass when the port
    /// counts agree, otherwise (or when it pairs nothing) the fallback of the
    /// first output port against every input port.
    pub fn link_device(&self, input_device: &Node) -> (r: Result<Vec<LinkRequest>, NodeError>)
        ensures
            match r {
                Ok(reqs) => spec_link_plan(self@, input_device@) == Ok::<
                    Seq<LinkRequest>,
                    NodeErrV,
                >(reqs@),
                Err(e) => spec_link_plan(self@, input_device@) == Err::<
                    Seq<LinkRequest>,
                    NodeErrV,
                >(e@),
            },
    {
        if !self.has_port_with_direction(PortDirection::Out) {
            return Err(
                NodeError::IncorrectTypeOfChannelDirection(self.name.clone(), PortDirection::Out),
            );
        }
        if !input_device.has_port_with_direction(PortDirection::In) {
            return Err(
                NodeError::IncorrectTypeOfChannelDirection(
                    input_device.name.clone(),
                    PortDirection::In,
                ),
            );
        }
        let mut requests: Vec<LinkRequest> = Vec::new();
        if self.ports.len() == input_device.ports.len() {
            let n = self.ports.len();
            let mut i: usize = 0;
            proof {
                assert(requests@ =~= Seq::<LinkRequest>::empty());
            }
            while i < n
                invariant
                    n == self.ports.len(),
                    n == input_device.ports.len(),
                    0 <= i <= n,
                    spec_has_direction(self@.ports, PortDirection::Out),
                    spec_has_direction(input_device@.ports, PortDirection::In),
                    spec_exact_pass(self@.ports, input_device@.ports, i as int) == Ok::<
                        Seq<LinkRequest>,
                        PortErrV,
                    >(requests@),
                decreases n - i,
            {
                proof {
                    assert(self@.ports[i as int] == self.ports@[i as int]@);
                }
                if self.ports[i].direction == PortDirection::In {
                    i += 1;
                } else {
                    match input_device.find_port_by_channel(self.ports[i].audio_channel) {
                        None => {},
                        Some(j) => {
                            proof {
                                assert(input_device@.ports[j as int] == input_device.ports@[j as int]@);
                            }
                            match self.ports[i].link_port(&input_device.ports[j]) {
                                Ok(req) => {
                                    requests.push(req);
                                },
                                Err(e) => {
                                    proof {
                                        assert(spec_exact_pass(
                                            self@.ports,
                                            input_device@.ports,
                                            i as int + 1,
                                        ) == Err::<Seq<LinkRequest>, PortErrV>(e@));
                                        lemma_exact_pass_err_persists(
                                            self@.ports,
                                            input_device@.ports,
                                            i as int + 1,
                                            n as int,
                                        );
                                    }
                                    return Err(NodeError::PortError(e));
                                },
                            }
                        },
                    }
                    i += 1;
                }
            }
            if requests.len() > 0 {
                return Ok(requests);
            }
        }
        // No matching ports were found (or the port counts differ): connect
        // the first output port to every input port of the target.
        let first = match self.find_first_out() {
            Some(k) => k,
            None => {
                return Err(
                    NodeError::IncorrectTypeOfChannelDirection(
                        input_device.name.clone(),
                        PortDirection::In,
                    ),
                );
            },
        };
        let mut fallback: Vec<LinkRequest> = Vec::new();
        let m = input_device.ports.len();
        let mut i: usize = 0;
        proof {
            assert(input_device@.ports.take(0) =~= Seq::<PortV>::empty());
            assert(fallback@ =~= Seq::<LinkRequest>::empty());
        }
        while i < m
            invariant
                m == input_device.ports.len(),
                0 <= i <= m,
                first < self.ports.len(),
                self@.ports[first as int].direction == PortDirection::Out,
                spec_first_out_idx(self@.ports) == Some(first as int),
                fallback@ == spec_fallback_pairs(
                    self@.ports[first as int],
                    input_device@.ports.take(i as int),
                ),
            decreases m - i,
        {
            proof {
                assert(input_device@.ports.take(i as int + 1).drop_last() =~= input_device@.ports.take(
                    i as int,
                ));
                assert(input_device@.ports.take(i as int + 1).last() == input_device@.ports[i as int]);
            }
            if input_device.ports[i].direction == PortDirection::In {
                match self.ports[first].link_port(&input_device.ports[i]) {
                    Ok(req) => {
                        fallback.push(req);
                    },
                    Err(_) => {
                        proof {
                            assert(self@.ports[first as int] == self.ports@[first as int]@);
                            assert(input_device@.ports[i as int] == input_device.ports@[i as int]@);
                            assert(false);
                        }
                    },
                }
            }
            i += 1;
        }
        proof {
            assert(input_device@.ports.take(m as int) =~= input_device@.ports);
        }
        Ok(fallback)
    }
}

} // verus!