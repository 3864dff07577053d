//! Ports: a single input or output channel on a node, tagged with an audio
//! channel role used for channel matching.

use crate::utils::{
    dec_value, is_digit_seq, parse_u32, spec_lookup, str_eq, val, val_or, DecodeErrV, DecodeError,
    Props,
};
use vstd::prelude::*;
use vstd::string::StringExecFns;

verus! {

/// Direction of a port: data flows into an `In` port and out of an `Out`
/// port.
#[derive(Debug, Clone, Copy, PartialEq, Eq, Structural)]
pub enum PortDirection {
    In,
    Out,
}

/// The direction a textual direction tag decodes to, when it is one of the
/// two recognized tags.
pub open spec fn spec_direction_from_str(s: Seq<char>) -> PortDirection {
    if s == "in"@ {
        PortDirection::In
    } else {
        PortDirection::Out
    }
}

/// The textual tag a direction encodes to.
pub open spec fn spec_direction_str(d: PortDirection) -> Seq<char> {
    match d {
        PortDirection::In => "in"@,
        PortDirection::Out => "out"@,
    }
}

impl PortDirection {
    /// Decode a direction tag.  Only the two recognized tags are accepted;
    /// the caller is expected to have checked the tag first.
    pub fn from_str(s: &str) -> (r: PortDirection)
        requires
            s@ == "in"@ || s@ == "out"@,
        ensures
            r == spec_direction_from_str(s@),
    {
        if str_eq(s, "in") {
            PortDirection::In
        } else {
            PortDirection::Out
        }
    }

    /// Encode a direction back to its textual tag.
    pub fn as_str(&self) -> (r: &'static str)
        ensures
            r@ == spec_direction_str(*self),
    {
        match self {
            PortDirection::In => "in",
            PortDirection::Out => "out",
        }
    }
}

/// Decoding a direction's textual tag yields the direction again: the
/// direction part of the decode/encode round trip.
pub proof fn lemma_direction_round_trip(d: PortDirection)
    ensures
        spec_direction_from_str(spec_direction_str(d)) == d,
{
    reveal_strlit("in");
    reveal_strlit("out");
    assert("in"@.len() == 2);
    assert("out"@.len() == 3);
    assert("in"@ != "out"@);
}

/// The audio channel role a port is tagged with, used to pair channels when
/// two nodes are linked.  Unrecognized tags decode to `Unknown`.
#[derive(Debug, Clone, Copy, PartialEq, Eq, Structural)]
#[allow(clippy::upper_case_acronyms)]
pub enum AudioChannel {
    MONO,
    /// Front Left
    FL,
    /// Front Right
    FR,
    /// Front Center
    FC,
    /// Subwoofer
    LFE,
    /// Side Left
    SL,
    /// Side Right
    SR,
    /// Rear Left
    RL,
    /// Rear Right
    RR,
    /// Top Front Left
    TFL,
    /// Top Front Right
    TFR,
    /// In case the channel is unknown
    Unknown,
}

/// The role a textual role tag decodes to.  Every string decodes to
/// something; tags outside the closed set fall back to `Unknown`.
pub open spec fn spec_channel_from_str(s: Seq<char>) -> AudioChannel {
    if s == "MONO"@ {
        AudioChannel::MONO
    } else if s == "FL"@ {
        AudioChannel::FL
    } else if s == "FR"@ {
        AudioChannel::FR
    } else if s == "FC"@ {
        AudioChannel::FC
    } else if s == "LFE"@ {
        AudioChannel::LFE
    } else if s == "SL"@ {
        AudioChannel::SL
    } else if s == "SR"@ {
        AudioChannel::SR
    } else if s == "RL"@ {
        AudioChannel::RL
    } else if s == "RR"@ {
        AudioChannel::RR
    } else if s == "TFL"@ {
        AudioChannel::TFL
    } else if s == "TFR"@ {
        AudioChannel::TFR
    } else {
        AudioChannel::Unknown
    }
}

/// The textual tag a role encodes to.
pub open spec fn spec_channel_str(c: AudioChannel) -> Seq<char> {
    match c {
        AudioChannel::MONO => "MONO"@,
        AudioChannel::FL => "FL"@,
        AudioChannel::FR => "FR"@,
        AudioChannel::FC => "FC"@,
        AudioChannel::LFE => "LFE"@,
        AudioChannel::SL => "SL"@,
        AudioChannel::SR => "SR"@,
        AudioChannel::RL => "RL"@,
        AudioChannel::RR => "RR"@,
        AudioChannel::TFL => "TFL"@,
        AudioChannel::TFR => "TFR"@,
        AudioChannel::Unknown => "unknown"@,
    }
}

impl AudioChannel {
    /// Decode a role tag; anything outside the closed set of known tags is
    /// `Unknown`.
    pub fn from_str(s: &str) -> (r: AudioChannel)
        ensures
            r == spec_channel_from_str(s@),
    {
        if str_eq(s, "MONO") {
            AudioChannel::MONO
        } else if str_eq(s, "FL") {
            AudioChannel::FL
        } else if str_eq(s, "FR") {
            AudioChannel::FR
        } else if str_eq(s, "FC") {
            AudioChannel::FC
        } else if str_eq(s, "LFE") {
            AudioChannel::LFE
        } else if str_eq(s, "SL") {
            AudioChannel::SL
        } else if str_eq(s, "SR") {
            AudioChannel::SR
        } else if str_eq(s, "RL") {
            AudioChannel::RL
        } else if str_eq(s, "RR") {
            AudioChannel::RR
        } else if str_eq(s, "TFL") {
            AudioChannel::TFL
        } else if str_eq(s, "TFR") {
            AudioChannel::TFR
        } else {
            AudioChannel::Unknown
        }
    }

    /// Encode a role back to its textual tag.
    pub fn as_str(&self) -> (r: &'static str)
        ensures
            r@ == spec_channel_str(*self),
    {
        match self {
            AudioChannel::MONO => "MONO",
            AudioChannel::FL => "FL",
            AudioChannel::FR => "FR",
            AudioChannel::FC => "FC",
            AudioChannel::LFE => "LFE",
            AudioChannel::SL => "SL",
            AudioChannel::SR => "SR",
            AudioChannel::RL => "RL",
            AudioChannel::RR => "RR",
            AudioChannel::TFL => "TFL",
            AudioChannel::TFR => "TFR",
            AudioChannel::Unknown => "unknown",
        }
    }
}

/// Decoding a role's textual tag yields the role again: the role part of the
/// decode/encode round trip.
pub proof fn lemma_channel_round_trip(c: AudioChannel)
    ensures
        spec_channel_from_str(spec_channel_str(c)) == c,
{
    reveal_strlit("MONO");
    reveal_strlit("FL");
    reveal_strlit("FR");
    reveal_strlit("FC");
    reveal_strlit("LFE");
    reveal_strlit("SL");
    reveal_strlit("SR");
    reveal_strlit("RL");
    reveal_strlit("RR");
    reveal_strlit("TFL");
    reveal_strlit("TFR");
    reveal_strlit("unknown");
    assert("MONO"@.len() == 4);
    assert("FL"@.len() == 2);
    assert("FR"@.len() == 2);
    assert("FC"@.len() == 2);
    assert("LFE"@.len() == 3);
    assert("SL"@.len() == 2);
    assert("SR"@.len() == 2);
    assert("RL"@.len() == 2);
    assert("RR"@.len() == 2);
    assert("TFL"@.len() == 3);
    assert("TFR"@.len() == 3);
    assert("unknown"@.len() == 7);
    assert("FL"@[0] == 'F' && "FL"@[1] == 'L');
    assert("FR"@[0] == 'F' && "FR"@[1] == 'R');
    assert("FC"@[0] == 'F' && "FC"@[1] == 'C');
    assert("SL"@[0] == 'S' && "SL"@[1] == 'L');
    assert("SR"@[0] == 'S' && "SR"@[1] == 'R');
    assert("RL"@[0] == 'R' && "RL"@[1] == 'L');
    assert("RR"@[0] == 'R' && "RR"@[1] == 'R');
    assert("LFE"@[0] == 'L');
    assert("TFL"@[0] == 'T' && "TFL"@[2] == 'L');
    assert("TFR"@[0] == 'T' && "TFR"@[2] == 'R');
}

/// A failure to pair two ports.  Carries the two port names and a reason.
#[derive(Debug, Clone, PartialEq)]
pub enum PortError {
    LinkError(String, String, String),
}

/// A request for the server to connect an output port to an input port.
#[derive(Debug, Clone, Copy, PartialEq, Eq, Structural)]
pub struct LinkRequest {
    pub output_node: u32,
    pub output_port: u32,
    pub input_node: u32,
    pub input_port: u32,
}

/// A single input or output channel on a node.
#[derive(Debug)]
pub struct Port {
    pub id: u32,
    pub name: String,
    pub direction: PortDirection,
    pub alias: String,
    pub group: String,
    pub object_serial: u32,
    pub object_path: String,
    /// The node this port belongs to
    pub node_id: u32,
    pub audio_channel: AudioChannel,
}

/// Mathematical image of a `Port`.
pub struct PortV {
    pub id: u32,
    pub name: Seq<char>,
    pub direction: PortDirection,
    pub alias: Seq<char>,
    pub group: Seq<char>,
    pub object_serial: u32,
    pub object_path: Seq<char>,
    pub node_id: u32,
    pub audio_channel: AudioChannel,
}

impl View for Port {
    type V = PortV;

    open spec fn view(&self) -> PortV {
        PortV {
            id: self.id,
            name: self.name@,
            direction: self.direction,
            alias: self.alias@,
            group: self.group@,
            object_serial: self.object_serial,
            object_path: self.object_path@,
            node_id: self.node_id,
            audio_channel: self.audio_channel,
        }
    }
}

/// The number a property value denotes, with values that are not a number in
/// range standing in for the largest one.
pub open spec fn spec_parse_or_max(s: Seq<char>) -> u32 {
    if s.len() > 0 && is_digit_seq(s) && dec_value(s) <= u32::MAX {
        dec_value(s) as u32
    } else {
        u32::MAX
    }
}

/// What decoding a port property dictionary yields: the typed port, or the
/// first decode failure in reading order.
pub open spec fn spec_decode_port(id: u32, m: Seq<(Seq<char>, Seq<char>)>) -> Result<
    PortV,
    DecodeErrV,
> {
    let channel_tag = match spec_lookup(m, "audio.channel"@) {
        Some(v) => v,
        None => "unknown"@,
    };
    match spec_lookup(m, "port.name"@) {
        None => Err(DecodeErrV::MissingKey("port.name"@)),
        Some(name) => match spec_lookup(m, "port.direction"@) {
            None => Err(DecodeErrV::MissingKey("port.direction"@)),
            Some(dir) => if dir != "in"@ && dir != "out"@ {
                Err(DecodeErrV::MalformedValue("port.direction"@))
            } else {
                match spec_lookup(m, "port.alias"@) {
                    None => Err(DecodeErrV::MissingKey("port.alias"@)),
                    Some(alias) => match spec_lookup(m, "port.group"@) {
                        None => Err(DecodeErrV::MissingKey("port.group"@)),
                        Some(group) => match spec_lookup(m, "object.serial"@) {
                            None => Err(DecodeErrV::MissingKey("object.serial"@)),
                            Some(serial) => match spec_lookup(m, "object.path"@) {
                                None => Err(DecodeErrV::MissingKey("object.path"@)),
                                Some(path) => match spec_lookup(m, "node.id"@) {
                                    None => Err(DecodeErrV::MissingKey("node.id"@)),
                                    Some(nid) => Ok(
                                        PortV {
                                            id,
                                            name,
                                            direction: spec_direction_from_str(dir),
                                            alias,
                                            group,
                                            object_serial: spec_parse_or_max(serial),
                                            object_path: path,
                                            node_id: spec_parse_or_max(nid),
                                            audio_channel: spec_channel_from_str(channel_tag),
                                        },
                                    ),
                                },
                            },
                        },
                    },
                }
            },
        },
    }
}

impl Port {
    /// Decode a port from its reported id and property dictionary.
    pub fn new(id: u32, props: &Props) -> (r: Result<Port, DecodeError>)
        ensures
            match r {
                Ok(p) => spec_decode_port(id, props@) == Ok::<PortV, DecodeErrV>(p@),
                Err(e) => spec_decode_port(id, props@) == Err::<PortV, DecodeErrV>(e@),
            },
    {
        let audio_channel = val_or(props, "audio.channel", "unknown");
        let name = match val(props, "port.name") {
            Ok(v) => v,
            Err(e) => return Err(e),
        };
        let dir_s = match val(props, "port.direction") {
            Ok(v) => v,
            Err(e) => return Err(e),
        };
        if !str_eq(dir_s.as_str(), "in") && !str_eq(dir_s.as_str(), "out") {
            return Err(DecodeError::MalformedValue("port.direction".to_owned()));
        }
        let direction = PortDirection::from_str(dir_s.as_str());
        let alias = match val(props, "port.alias") {
            Ok(v) => v,
            Err(e) => return Err(e),
        };
        let group = match val(props, "port.group") {
            Ok(v) => v,
            Err(e) => return Err(e),
        };
        let serial_s = match val(props, "object.serial") {
            Ok(v) => v,
            Err(e) => return Err(e),
        };
        let object_path = match val(props, "object.path") {
            Ok(v) => v,
            Err(e) => return Err(e),
        };
        let nid_s = match val(props, "node.id") {
            Ok(v) => v,
            Err(e) => return Err(e),
        };
        let object_serial = match parse_u32(serial_s.as_str()) {
            Some(v) => v,
            None => u32::MAX,
        };
        let node_id = match parse_u32(nid_s.as_str()) {
            Some(v) => v,
            None => u32::MAX,
        };
        Ok(
            Port {
                id,
                name,
                direction,
                alias,
                group,
                object_serial,
                object_path,
                node_id,
                audio_channel: AudioChannel::from_str(audio_channel.as_str()),
            },
        )
    }

    /// Pair this port with an input port of another node: the request the
    /// server needs to connect the two, or an error when the directions do
    /// not allow audio to flow from this port into the other.
    pub fn link_port(&self, target_port: &Port) -> (r: Result<LinkRequest, PortError>)
        ensures
            match r {
                Ok(req) => self.direction == PortDirection::Out && target_port.direction
                    == PortDirection::In && req == (LinkRequest {
                    output_node: self.node_id,
                    output_port: self.id,
                    input_node: target_port.node_id,
                    input_port: target_port.id,
                }),
                Err(e) => (self.direction != PortDirection::Out || target_port.direction
                    != PortDirection::In) && e@ == spec_pair_error(self@, target_port@),
            },
    {
        if !matches!(self.direction, PortDirection::Out) {
            return Err(
                PortError::LinkError(
                    self.name.clone(),
                    target_port.name.clone(),
                    self.name.clone().concat(" is not an output port"),
                ),
            );
        }
        if !matches!(target_port.direction, PortDirection::In) {
            return Err(
                PortError::LinkError(
                    self.name.clone(),
                    target_port.name.clone(),
                    self.name.clone().concat(" is not an input port"),
                ),
            );
        }
        Ok(
            LinkRequest {
                output_node: self.node_id,
                output_port: self.id,
                input_node: target_port.node_id,
                input_port: target_port.id,
            },
        )
    }
}

/// Mathematical image of a `PortError`.
pub enum PortErrV {
    LinkError(Seq<char>, Seq<char>, Seq<char>),
}

impl View for PortError {
    type V = PortErrV;

    open spec fn view(&self) -> PortErrV {
        match self {
            PortError::LinkError(a, b, r) => PortErrV::LinkError(a@, b@, r@),
        }
    }
}

/// The error `link_port` reports for a pair whose directions do not allow a
/// connection.
pub open spec fn spec_pair_error(out_port: PortV, in_port: PortV) -> PortErrV {
    if out_port.direction != PortDirection::Out {
        PortErrV::LinkError(out_port.name, in_port.name, out_port.name + " is not an output port"@)
    } else {
        PortErrV::LinkError(out_port.name, in_port.name, out_port.name + " is not an input port"@)
    }
}

} // verus!
