use easy_pw::link::Link;
use easy_pw::node::Node;
use easy_pw::port::{AudioChannel, Port, PortDirection};
use easy_pw::utils::{parse_u32, val, val_opt, val_or, DecodeError, Props};

fn props_of(pairs: &[(&str, &str)]) -> Props {
    let mut props = Props::new();
    for (k, v) in pairs {
        props.push((*k).to_owned(), (*v).to_owned());
    }
    props
}

#[test]
fn role_tag_round_trip() {
    let all = [
        AudioChannel::MONO,
        AudioChannel::FL,
        AudioChannel::FR,
        AudioChannel::FC,
        AudioChannel::LFE,
        AudioChannel::SL,
        AudioChannel::SR,
        AudioChannel::RL,
        AudioChannel::RR,
        AudioChannel::TFL,
        AudioChannel::TFR,
        AudioChannel::Unknown,
    ];
    for c in all {
        assert_eq!(AudioChannel::from_str(c.as_str()), c);
    }
    assert_eq!(AudioChannel::FL.as_str(), "FL");
    assert_eq!(AudioChannel::LFE.as_str(), "LFE");
    assert_eq!(AudioChannel::Unknown.as_str(), "unknown");
}

#[test]
fn unknown_role_tag_falls_back() {
    assert_eq!(AudioChannel::from_str("AUX17"), AudioChannel::Unknown);
    assert_eq!(AudioChannel::from_str(""), AudioChannel::Unknown);
    assert_eq!(AudioChannel::from_str("fl"), AudioChannel::Unknown);
}

#[test]
fn direction_round_trip() {
    assert_eq!(PortDirection::from_str(PortDirection::In.as_str()), PortDirection::In);
    assert_eq!(PortDirection::from_str(PortDirection::Out.as_str()), PortDirection::Out);
    assert_eq!(PortDirection::In.as_str(), "in");
    assert_eq!(PortDirection::Out.as_str(), "out");
}

#[test]
fn port_decodes_all_fields() {
    let props = props_of(&[
        ("port.name", "alsa:playback_FL"),
        ("port.direction", "out"),
        ("port.alias", "Speakers FL"),
        ("port.group", "playback"),
        ("object.serial", "77"),
        ("object.path", "alsa:pcm:0"),
        ("node.id", "42"),
        ("audio.channel", "FL"),
    ]);
    let port = Port::new(9, &props).unwrap();
    assert_eq!(port.id, 9);
    assert_eq!(port.name, "alsa:playback_FL");
    assert_eq!(port.direction, PortDirection::Out);
    assert_eq!(port.alias, "Speakers FL");
    assert_eq!(port.group, "playback");
    assert_eq!(port.object_serial, 77);
    assert_eq!(port.object_path, "alsa:pcm:0");
    assert_eq!(port.node_id, 42);
    assert_eq!(port.audio_channel, AudioChannel::FL);
    // Re-encoding the decoded tags yields the reported properties.
    assert_eq!(port.direction.as_str(), "out");
    assert_eq!(port.audio_channel.as_str(), "FL");
}

#[test]
fn port_without_role_tag_is_unknown() {
    let props = props_of(&[
        ("port.name", "p"),
        ("port.direction", "in"),
        ("port.alias", "a"),
        ("port.group", "g"),
        ("object.serial", "1"),
        ("object.path", "o"),
        ("node.id", "2"),
    ]);
    let port = Port::new(1, &props).unwrap();
    assert_eq!(port.audio_channel, AudioChannel::Unknown);
}

#[test]
fn port_missing_required_key_is_an_error() {
    let props = props_of(&[("port.direction", "out")]);
    let err = Port::new(1, &props).unwrap_err();
    assert_eq!(err, DecodeError::MissingKey("port.name".to_owned()));
}

#[test]
fn port_bad_direction_is_an_error() {
    let props = props_of(&[
        ("port.name", "p"),
        ("port.direction", "sideways"),
        ("port.alias", "a"),
        ("port.group", "g"),
        ("object.serial", "1"),
        ("object.path", "o"),
        ("node.id", "2"),
    ]);
    let err = Port::new(1, &props).unwrap_err();
    assert_eq!(err, DecodeError::MalformedValue("port.direction".to_owned()));
}

#[test]
fn port_unparseable_numbers_saturate() {
    let props = props_of(&[
        ("port.name", "p"),
        ("port.direction", "in"),
        ("port.alias", "a"),
        ("port.group", "g"),
        ("object.serial", "not-a-number"),
        ("object.path", "o"),
        ("node.id", "4294967296"),
    ]);
    let port = Port::new(1, &props).unwrap();
    assert_eq!(port.object_serial, u32::MAX);
    assert_eq!(port.node_id, u32::MAX);
}

#[test]
fn node_decodes_required_and_optional_fields() {
    let props = props_of(&[
        ("node.name", "Built-in Audio"),
        ("node.description", "Speakers"),
        ("object.serial", "12"),
        ("media.class", "Audio/Sink"),
    ]);
    let node = Node::new(30, 7, 3, &props).unwrap();
    assert_eq!(node.id, 30);
    assert_eq!(node.name, "Built-in Audio");
    assert_eq!(node.description.as_deref(), Some("Speakers"));
    assert_eq!(node.nick, None);
    assert_eq!(node.permissions, 7);
    assert_eq!(node.version, 3);
    assert_eq!(node.object_serial, "12");
    assert_eq!(node.media_class.as_deref(), Some("Audio/Sink"));
    assert!(node.ports.is_empty());
}

#[test]
fn node_missing_name_is_an_error() {
    let props = props_of(&[("object.serial", "12")]);
    let err = Node::new(30, 0, 0, &props).unwrap_err();
    assert_eq!(err, DecodeError::MissingKey("node.name".to_owned()));
}

#[test]
fn link_decodes_its_endpoints() {
    let props = props_of(&[
        ("link.output.port", "5"),
        ("link.input.port", "6"),
        ("link.output.node", "1"),
        ("link.input.node", "2"),
    ]);
    let link = Link::new(100, &props).unwrap();
    assert_eq!(link.id, 100);
    assert_eq!(link.output_port, 5);
    assert_eq!(link.input_port, 6);
    assert_eq!(link.output_node, 1);
    assert_eq!(link.input_node, 2);
}

#[test]
fn link_with_malformed_endpoint_is_an_error() {
    let props = props_of(&[
        ("link.output.port", "5"),
        ("link.input.port", "six"),
        ("link.output.node", "1"),
        ("link.input.node", "2"),
    ]);
    let err = Link::new(100, &props).unwrap_err();
    assert_eq!(err, DecodeError::MalformedValue("link.input.port".to_owned()));
}

#[test]
fn parse_u32_bounds() {
    assert_eq!(parse_u32("0"), Some(0));
    assert_eq!(parse_u32("4294967295"), Some(u32::MAX));
    assert_eq!(parse_u32("4294967296"), None);
    assert_eq!(parse_u32(""), None);
    assert_eq!(parse_u32("12a"), None);
    assert_eq!(parse_u32("0042"), Some(42));
}

#[test]
fn props_lookup_finds_first_entry() {
    let mut props = props_of(&[("k", "v1"), ("k", "v2")]);
    assert_eq!(val_opt(&props, "k"), Some("v1".to_owned()));
    assert_eq!(val_opt(&props, "missing"), None);
    assert_eq!(val(&props, "k").unwrap(), "v1");
    assert_eq!(
        val(&props, "missing").unwrap_err(),
        DecodeError::MissingKey("missing".to_owned())
    );
    assert_eq!(val_or(&props, "missing", "fallback"), "fallback");
    props.push("missing".to_owned(), "now".to_owned());
    assert_eq!(val_or(&props, "missing", "fallback"), "now");
}
