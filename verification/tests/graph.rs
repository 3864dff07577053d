use easy_pw::event::{handle_global, remove_object, ConnectorEvent, Effects, ObjectKind, ServerRequest};
use easy_pw::objects::GraphError;
use easy_pw::link::Link;
use easy_pw::node::Node;
use easy_pw::objects::PipeWireObjects;
use easy_pw::port::{AudioChannel, Port, PortDirection};
use easy_pw::utils::Props;

fn make_node(id: u32, name: &str) -> Node {
    Node {
        id,
        name: name.to_owned(),
        description: None,
        nick: None,
        permissions: 0,
        version: 0,
        object_serial: "0".to_owned(),
        factory_id: None,
        object_path: None,
        client_id: None,
        device_id: None,
        priority_session: None,
        priority_driver: None,
        media_class: None,
        media_role: None,
        client_api: None,
        application_name: None,
        ports: vec![],
    }
}

fn make_port(id: u32, node_id: u32, direction: PortDirection, channel: AudioChannel) -> Port {
    Port {
        id,
        name: format!("port-{id}"),
        direction,
        alias: String::new(),
        group: String::new(),
        object_serial: id,
        object_path: String::new(),
        node_id,
        audio_channel: channel,
    }
}

fn make_link(id: u32, output_node: u32, output_port: u32, input_node: u32, input_port: u32) -> Link {
    Link { id, output_port, input_port, output_node, input_node }
}

fn node_props(name: &str) -> Props {
    let mut props = Props::new();
    props.push("node.name".to_owned(), name.to_owned());
    props.push("object.serial".to_owned(), "1".to_owned());
    props
}

fn port_props(name: &str, direction: &str, node_id: u32, channel: &str) -> Props {
    let mut props = Props::new();
    props.push("port.name".to_owned(), name.to_owned());
    props.push("port.direction".to_owned(), direction.to_owned());
    props.push("port.alias".to_owned(), String::new());
    props.push("port.group".to_owned(), String::new());
    props.push("object.serial".to_owned(), "1".to_owned());
    props.push("object.path".to_owned(), String::new());
    props.push("node.id".to_owned(), node_id.to_string());
    props.push("audio.channel".to_owned(), channel.to_owned());
    props
}

#[test]
fn reconcile_node_then_port() {
    let mut objects = PipeWireObjects::default();
    let mut effects = Effects::new();
    handle_global(&mut objects, 1, 0, 0, ObjectKind::Node, &node_props("dev"), &mut effects)
        .unwrap();
    handle_global(
        &mut objects,
        10,
        0,
        0,
        ObjectKind::Port,
        &port_props("p", "out", 1, "FL"),
        &mut effects,
    )
    .unwrap();
    assert_eq!(objects.nodes.len(), 1);
    assert_eq!(objects.nodes[0].ports.len(), 1);
    assert_eq!(objects.nodes[0].ports[0].id, 10);
    assert!(objects.ports_to_be_added.is_empty());
}

#[test]
fn reconcile_port_then_node_gives_the_same_graph() {
    let mut objects = PipeWireObjects::default();
    let mut effects = Effects::new();
    handle_global(
        &mut objects,
        10,
        0,
        0,
        ObjectKind::Port,
        &port_props("p", "out", 1, "FL"),
        &mut effects,
    )
    .unwrap();
    // The port waits: its node has not appeared yet.
    assert_eq!(objects.ports_to_be_added.len(), 1);
    assert!(objects.nodes.is_empty());
    handle_global(&mut objects, 1, 0, 0, ObjectKind::Node, &node_props("dev"), &mut effects)
        .unwrap();
    assert_eq!(objects.nodes.len(), 1);
    assert_eq!(objects.nodes[0].ports.len(), 1);
    assert_eq!(objects.nodes[0].ports[0].id, 10);
    assert!(objects.ports_to_be_added.is_empty());
}

#[test]
fn orphan_port_survives_reconciliation() {
    let mut objects = PipeWireObjects::default();
    objects.nodes.push(make_node(1, "dev"));
    objects
        .ports_to_be_added
        .push(make_port(10, 99, PortDirection::Out, AudioChannel::FL));
    objects.update_nodes();
    // The port's node (99) never appeared: the port is still pending.
    assert_eq!(objects.ports_to_be_added.len(), 1);
    assert_eq!(objects.ports_to_be_added[0].id, 10);
    objects.update_nodes();
    assert_eq!(objects.ports_to_be_added.len(), 1);
    assert!(objects.nodes[0].ports.is_empty());
}

#[test]
fn duplicate_port_is_not_attached_twice() {
    let mut objects = PipeWireObjects::default();
    let mut node = make_node(1, "dev");
    node.ports.push(make_port(10, 1, PortDirection::Out, AudioChannel::FL));
    objects.nodes.push(node);
    objects
        .ports_to_be_added
        .push(make_port(10, 1, PortDirection::Out, AudioChannel::FL));
    objects.update_nodes();
    assert_eq!(objects.nodes[0].ports.len(), 1);
    assert!(objects.ports_to_be_added.is_empty());
}

#[test]
fn link_event_notifies_the_pair() {
    let mut objects = PipeWireObjects::default();
    let mut effects = Effects::new();
    let mut props = Props::new();
    props.push("link.output.port".to_owned(), "5".to_owned());
    props.push("link.input.port".to_owned(), "6".to_owned());
    props.push("link.output.node".to_owned(), "1".to_owned());
    props.push("link.input.node".to_owned(), "2".to_owned());
    handle_global(&mut objects, 100, 0, 0, ObjectKind::Link, &props, &mut effects).unwrap();
    assert_eq!(objects.links.len(), 1);
    assert_eq!(effects.notifications, vec![ConnectorEvent::LinkUpdate(1, 2)]);
    assert!(effects.requests.is_empty());
}

#[test]
fn other_event_notifies_nothing_happened() {
    let mut objects = PipeWireObjects::default();
    let mut effects = Effects::new();
    handle_global(&mut objects, 100, 0, 0, ObjectKind::Other, &Props::new(), &mut effects)
        .unwrap();
    assert_eq!(effects.notifications, vec![ConnectorEvent::NoEvent]);
}

#[test]
fn remove_object_takes_the_link_first() {
    let mut objects = PipeWireObjects::default();
    objects.nodes.push(make_node(1, "a"));
    objects.nodes.push(make_node(2, "b"));
    objects.links.push(make_link(100, 1, 5, 2, 6));
    let mut effects = Effects::new();
    remove_object(&mut objects, 100, &mut effects);
    assert!(objects.links.is_empty());
    assert_eq!(objects.nodes.len(), 2);
    assert_eq!(effects.notifications, vec![ConnectorEvent::UnlinkUpdate(1, 2)]);
    // A server-initiated removal asks for no destroy operation.
    assert!(effects.requests.is_empty());
}

#[test]
fn removing_a_node_removes_its_connections() {
    let mut objects = PipeWireObjects::default();
    objects.nodes.push(make_node(1, "a"));
    objects.nodes.push(make_node(2, "b"));
    objects.nodes.push(make_node(3, "c"));
    objects.links.push(make_link(100, 1, 5, 2, 6));
    objects.links.push(make_link(101, 2, 7, 3, 8));
    objects.links.push(make_link(102, 3, 9, 1, 4));
    let mut effects = Effects::new();
    remove_object(&mut objects, 2, &mut effects);
    assert_eq!(objects.nodes.len(), 2);
    assert!(objects.nodes.iter().all(|n| n.id != 2));
    // Both links touching node 2 are gone; the unrelated one stays.
    assert_eq!(objects.links.len(), 1);
    assert_eq!(objects.links[0].id, 102);
    assert_eq!(
        effects.notifications,
        vec![ConnectorEvent::UnlinkUpdate(1, 2), ConnectorEvent::UnlinkUpdate(2, 3)]
    );
}

#[test]
fn removing_an_unknown_id_changes_nothing() {
    let mut objects = PipeWireObjects::default();
    objects.nodes.push(make_node(1, "a"));
    objects.links.push(make_link(100, 1, 5, 2, 6));
    let mut effects = Effects::new();
    remove_object(&mut objects, 999, &mut effects);
    assert_eq!(objects.nodes.len(), 1);
    assert_eq!(objects.links.len(), 1);
    assert!(effects.notifications.is_empty());
}

#[test]
fn node_is_found_by_its_port_id_too() {
    let mut objects = PipeWireObjects::default();
    let mut node = make_node(1, "dev");
    node.ports.push(make_port(10, 1, PortDirection::Out, AudioChannel::FL));
    objects.nodes.push(node);
    assert_eq!(objects.find_node_by_id(1).unwrap().id, 1);
    assert_eq!(objects.find_node_by_id(10).unwrap().id, 1);
    assert!(objects.find_node_by_id(11).is_none());
    assert_eq!(objects.find_node_id_by_name("dev"), Some(1));
    assert_eq!(objects.find_node_id_by_name("nope"), None);
}

#[test]
fn removing_an_unknown_link_is_an_error() {
    let mut objects = PipeWireObjects::default();
    let mut effects = Effects::new();
    let err = objects.remove_link(100, true, &mut effects).unwrap_err();
    assert_eq!(err, GraphError::LinkNotFound(100));
    assert!(effects.notifications.is_empty());
    assert!(effects.requests.is_empty());
}

#[test]
fn remove_link_requests_a_destroy_when_asked() {
    let mut objects = PipeWireObjects::default();
    objects.nodes.push(make_node(1, "a"));
    objects.nodes.push(make_node(2, "b"));
    objects.links.push(make_link(100, 1, 5, 2, 6));
    let mut effects = Effects::new();
    let pair = objects.remove_link(100, true, &mut effects).unwrap();
    assert_eq!(pair, (1, 2));
    assert!(objects.links.is_empty());
    assert_eq!(effects.notifications, vec![ConnectorEvent::UnlinkUpdate(1, 2)]);
    assert_eq!(effects.requests, vec![ServerRequest::DestroyLink(100)]);
}

#[test]
fn find_linked_nodes_reports_the_pair() {
    let mut objects = PipeWireObjects::default();
    objects.links.push(make_link(100, 1, 5, 2, 6));
    assert_eq!(objects.find_linked_nodes_by_link_id(100), Some((1, 2)));
    assert_eq!(objects.find_linked_nodes_by_link_id(101), None);
    assert_eq!(objects.find_links_by_id(100).unwrap().input_node, 2);
}
