use easy_pw::event::{
    link_command, unlink_command, CommandError, ConnectorEvent, Effects, PipeWireEvent,
    ServerRequest,
};
use easy_pw::link::Link;
use easy_pw::node::{Node, NodeError};
use easy_pw::objects::PipeWireObjects;
use easy_pw::port::{AudioChannel, LinkRequest, Port, PortDirection, PortError};

fn make_node(id: u32, name: &str) -> Node {
    Node {
        id,
        name: name.to_owned(),
        description: None,
        nick: None,
        permissions: 0,
        version: 0,
        object_serial: "0".to_owned(),
        factory_id: None,
        object_path: None,
        client_id: None,
        device_id: None,
        priority_session: None,
        priority_driver: None,
        media_class: None,
        media_role: None,
        client_api: None,
        application_name: None,
        ports: vec![],
    }
}

fn make_port(id: u32, node_id: u32, direction: PortDirection, channel: AudioChannel) -> Port {
    Port {
        id,
        name: format!("port-{id}"),
        direction,
        alias: String::new(),
        group: String::new(),
        object_serial: id,
        object_path: String::new(),
        node_id,
        audio_channel: channel,
    }
}

fn make_link(id: u32, output_node: u32, output_port: u32, input_node: u32, input_port: u32) -> Link {
    Link { id, output_port, input_port, output_node, input_node }
}

fn request(output_node: u32, output_port: u32, input_node: u32, input_port: u32) -> ServerRequest {
    ServerRequest::CreateLink(LinkRequest { output_node, output_port, input_node, input_port })
}

#[test]
fn single_channel_pair_connects_once() {
    let mut source = make_node(1, "src");
    source.ports.push(make_port(10, 1, PortDirection::Out, AudioChannel::FL));
    let mut target = make_node(2, "dst");
    target.ports.push(make_port(20, 2, PortDirection::In, AudioChannel::FL));
    let plan = source.link_device(&target).unwrap();
    assert_eq!(plan.len(), 1);
    assert_eq!(
        plan[0],
        LinkRequest { output_node: 1, output_port: 10, input_node: 2, input_port: 20 }
    );
}

#[test]
fn stereo_pair_connects_by_role_and_skips_the_fallback() {
    let mut source = make_node(1, "src");
    source.ports.push(make_port(10, 1, PortDirection::Out, AudioChannel::FL));
    source.ports.push(make_port(11, 1, PortDirection::Out, AudioChannel::FR));
    let mut target = make_node(2, "dst");
    // Reversed order on the target: matching is by role, not by position.
    target.ports.push(make_port(21, 2, PortDirection::In, AudioChannel::FR));
    target.ports.push(make_port(20, 2, PortDirection::In, AudioChannel::FL));
    let plan = source.link_device(&target).unwrap();
    assert_eq!(
        plan,
        vec![
            LinkRequest { output_node: 1, output_port: 10, input_node: 2, input_port: 20 },
            LinkRequest { output_node: 1, output_port: 11, input_node: 2, input_port: 21 },
        ]
    );
}

#[test]
fn count_mismatch_falls_back_to_one_output_for_every_input() {
    let mut source = make_node(1, "src");
    source.ports.push(make_port(10, 1, PortDirection::Out, AudioChannel::MONO));
    let mut target = make_node(2, "dst");
    target.ports.push(make_port(20, 2, PortDirection::In, AudioChannel::FL));
    target.ports.push(make_port(21, 2, PortDirection::In, AudioChannel::FR));
    target.ports.push(make_port(22, 2, PortDirection::In, AudioChannel::FC));
    let plan = source.link_device(&target).unwrap();
    assert_eq!(
        plan,
        vec![
            LinkRequest { output_node: 1, output_port: 10, input_node: 2, input_port: 20 },
            LinkRequest { output_node: 1, output_port: 10, input_node: 2, input_port: 21 },
            LinkRequest { output_node: 1, output_port: 10, input_node: 2, input_port: 22 },
        ]
    );
}

#[test]
fn equal_counts_without_common_roles_fall_back() {
    let mut source = make_node(1, "src");
    source.ports.push(make_port(10, 1, PortDirection::Out, AudioChannel::MONO));
    let mut target = make_node(2, "dst");
    target.ports.push(make_port(20, 2, PortDirection::In, AudioChannel::FL));
    let plan = source.link_device(&target).unwrap();
    assert_eq!(
        plan,
        vec![LinkRequest { output_node: 1, output_port: 10, input_node: 2, input_port: 20 }]
    );
}

#[test]
fn source_without_outputs_is_rejected() {
    let mut source = make_node(1, "src");
    source.ports.push(make_port(10, 1, PortDirection::In, AudioChannel::FL));
    let mut target = make_node(2, "dst");
    target.ports.push(make_port(20, 2, PortDirection::In, AudioChannel::FL));
    let err = source.link_device(&target).unwrap_err();
    assert_eq!(
        err,
        NodeError::IncorrectTypeOfChannelDirection("src".to_owned(), PortDirection::Out)
    );
}

#[test]
fn target_without_inputs_is_rejected() {
    let mut source = make_node(1, "src");
    source.ports.push(make_port(10, 1, PortDirection::Out, AudioChannel::FL));
    let mut target = make_node(2, "dst");
    target.ports.push(make_port(20, 2, PortDirection::Out, AudioChannel::FL));
    let err = source.link_device(&target).unwrap_err();
    assert_eq!(
        err,
        NodeError::IncorrectTypeOfChannelDirection("dst".to_owned(), PortDirection::In)
    );
}

#[test]
fn exact_match_against_an_output_port_is_a_pairing_error() {
    // Equal counts; the role-matched target port is itself an output, which
    // the pairing step rejects.
    let mut source = make_node(1, "src");
    source.ports.push(make_port(10, 1, PortDirection::Out, AudioChannel::FL));
    source.ports.push(make_port(11, 1, PortDirection::In, AudioChannel::FR));
    let mut target = make_node(2, "dst");
    target.ports.push(make_port(20, 2, PortDirection::Out, AudioChannel::FL));
    target.ports.push(make_port(21, 2, PortDirection::In, AudioChannel::FR));
    let err = source.link_device(&target).unwrap_err();
    assert_eq!(
        err,
        NodeError::PortError(PortError::LinkError(
            "port-10".to_owned(),
            "port-20".to_owned(),
            "port-10 is not an input port".to_owned(),
        ))
    );
}

#[test]
fn link_port_validates_directions() {
    let out_port = make_port(10, 1, PortDirection::Out, AudioChannel::FL);
    let in_port = make_port(20, 2, PortDirection::In, AudioChannel::FL);
    let req = out_port.link_port(&in_port).unwrap();
    assert_eq!(
        req,
        LinkRequest { output_node: 1, output_port: 10, input_node: 2, input_port: 20 }
    );
    let err = in_port.link_port(&out_port).unwrap_err();
    assert_eq!(
        err,
        PortError::LinkError(
            "port-20".to_owned(),
            "port-10".to_owned(),
            "port-20 is not an output port".to_owned(),
        )
    );
}

#[test]
fn linking_a_node_to_itself_fails_and_touches_nothing() {
    let mut objects = PipeWireObjects::default();
    let mut node = make_node(1, "dev");
    node.ports.push(make_port(10, 1, PortDirection::Out, AudioChannel::FL));
    objects.nodes.push(node);
    let mut effects = Effects::new();
    let err = link_command(&mut objects, 1, 1, &mut effects).unwrap_err();
    assert_eq!(err, CommandError::SameEndpoint(1));
    assert_eq!(objects.nodes.len(), 1);
    assert!(effects.notifications.is_empty());
    assert!(effects.requests.is_empty());
}

#[test]
fn linking_unknown_endpoints_fails() {
    let mut objects = PipeWireObjects::default();
    objects.nodes.push(make_node(1, "dev"));
    let mut effects = Effects::new();
    let err = link_command(&mut objects, 1, 2, &mut effects).unwrap_err();
    assert_eq!(err, CommandError::EndpointNotFound(1, 2));
    assert!(effects.requests.is_empty());
}

#[test]
fn link_command_requests_the_planned_connections() {
    let mut objects = PipeWireObjects::default();
    let mut source = make_node(1, "src");
    source.ports.push(make_port(10, 1, PortDirection::Out, AudioChannel::FL));
    let mut target = make_node(2, "dst");
    target.ports.push(make_port(20, 2, PortDirection::In, AudioChannel::FL));
    objects.nodes.push(source);
    objects.nodes.push(target);
    let mut effects = Effects::new();
    link_command(&mut objects, 1, 2, &mut effects).unwrap();
    assert_eq!(effects.requests, vec![request(1, 10, 2, 20)]);
    assert!(effects.notifications.is_empty());
    // The graph gains no connection until the server confirms one.
    assert!(objects.links.is_empty());
}

#[test]
fn failed_link_command_downgrades_to_a_notification() {
    let mut objects = PipeWireObjects::default();
    let mut effects = Effects::new();
    let event = PipeWireEvent::LinkCommand(7, 7);
    let err = event.handle(&mut objects, &mut effects).unwrap_err();
    assert_eq!(err, ConnectorEvent::LinkFailed(7, 7));
    assert!(effects.requests.is_empty());
}

#[test]
fn unlink_without_a_connection_still_succeeds() {
    let mut objects = PipeWireObjects::default();
    objects.nodes.push(make_node(1, "a"));
    objects.nodes.push(make_node(2, "b"));
    let mut effects = Effects::new();
    unlink_command(&mut objects, 1, 2, &mut effects).unwrap();
    assert_eq!(effects.notifications, vec![ConnectorEvent::UnlinkUpdate(1, 2)]);
    assert!(effects.requests.is_empty());
}

#[test]
fn unlink_removes_every_matching_connection() {
    let mut objects = PipeWireObjects::default();
    objects.nodes.push(make_node(1, "a"));
    objects.nodes.push(make_node(2, "b"));
    objects.links.push(make_link(100, 1, 5, 2, 6));
    objects.links.push(make_link(101, 2, 7, 1, 8));
    objects.links.push(make_link(102, 1, 9, 2, 4));
    let mut effects = Effects::new();
    unlink_command(&mut objects, 1, 2, &mut effects).unwrap();
    // Both 1->2 links are gone; the reverse direction stays.
    assert_eq!(objects.links.len(), 1);
    assert_eq!(objects.links[0].id, 101);
    assert_eq!(
        effects.notifications,
        vec![ConnectorEvent::UnlinkUpdate(1, 2), ConnectorEvent::UnlinkUpdate(1, 2)]
    );
    assert_eq!(
        effects.requests,
        vec![ServerRequest::DestroyLink(100), ServerRequest::DestroyLink(102)]
    );
}

#[test]
fn unlink_command_through_handle() {
    let mut objects = PipeWireObjects::default();
    objects.nodes.push(make_node(1, "a"));
    objects.nodes.push(make_node(2, "b"));
    objects.links.push(make_link(100, 1, 5, 2, 6));
    let mut effects = Effects::new();
    let event = PipeWireEvent::UnlinkCommand(1, 2);
    event.handle(&mut objects, &mut effects).unwrap();
    assert!(objects.links.is_empty());
    assert_eq!(effects.notifications, vec![ConnectorEvent::UnlinkUpdate(1, 2)]);
    assert_eq!(effects.requests, vec![ServerRequest::DestroyLink(100)]);
}

#[test]
fn destroy_is_not_requested_when_an_endpoint_node_is_gone() {
    let mut objects = PipeWireObjects::default();
    objects.nodes.push(make_node(1, "a"));
    // Node 2 vanished earlier; its link record is still present.
    objects.links.push(make_link(100, 1, 5, 2, 6));
    let mut effects = Effects::new();
    unlink_command(&mut objects, 1, 2, &mut effects).unwrap();
    assert!(objects.links.is_empty());
    assert_eq!(effects.notifications, vec![ConnectorEvent::UnlinkUpdate(1, 2)]);
    assert!(effects.requests.is_empty());
}

#[test]
fn link_command_reports_a_rejected_plan() {
    let mut objects = PipeWireObjects::default();
    let mut source = make_node(1, "src");
    source.ports.push(make_port(10, 1, PortDirection::In, AudioChannel::FL));
    objects.nodes.push(source);
    objects.nodes.push(make_node(2, "dst"));
    let mut effects = Effects::new();
    let err = link_command(&mut objects, 1, 2, &mut effects).unwrap_err();
    assert_eq!(
        err,
        CommandError::Node(NodeError::IncorrectTypeOfChannelDirection(
            "src".to_owned(),
            PortDirection::Out,
        ))
    );
    assert!(effects.requests.is_empty());
}

#[test]
fn outcome_predicates_filter_by_pair() {
    assert!(ConnectorEvent::LinkUpdate(1, 2).is_link_outcome(1, 2));
    assert!(ConnectorEvent::LinkFailed(1, 2).is_link_outcome(1, 2));
    assert!(!ConnectorEvent::LinkUpdate(1, 3).is_link_outcome(1, 2));
    assert!(!ConnectorEvent::UnlinkUpdate(1, 2).is_link_outcome(1, 2));
    assert!(ConnectorEvent::UnlinkUpdate(1, 2).is_unlink_outcome(1, 2));
    assert!(ConnectorEvent::UnLinkFailed(1, 2).is_unlink_outcome(1, 2));
    assert!(!ConnectorEvent::NoEvent.is_unlink_outcome(1, 2));
}
