//! Links: established connections between an output port and an input port
//! of two nodes, as confirmed by the server.

use crate::utils::{dec_value, is_digit_seq, parse_u32, spec_lookup, val, DecodeErrV, DecodeError, Props};
use vstd::prelude::*;

verus! {

/// An established connection.  All fields are server-assigned ids.
#[derive(Debug, Clone, Copy, PartialEq, Eq, Structural)]
pub struct Link {
    pub id: u32,
    pub output_port: u32,
    pub input_port: u32,
    pub output_node: u32,
    pub input_node: u32,
}

/// Whether a property value is a decimal number that fits in 32 bits.
pub open spec fn spec_parseable_u32(s: Seq<char>) -> bool {
    s.len() > 0 && is_digit_seq(s) && dec_value(s) <= u32::MAX
}

/// What decoding a link property dictionary yields: the typed link, or the
/// first decode failure in reading order.
pub open spec fn spec_decode_link(id: u32, m: Seq<(Seq<char>, Seq<char>)>) -> Result<
    Link,
    DecodeErrV,
> {
    match spec_lookup(m, "link.output.port"@) {
        None => Err(DecodeErrV::MissingKey("link.output.port"@)),
        Some(op) => if !spec_parseable_u32(op) {
            Err(DecodeErrV::MalformedValue("link.output.port"@))
        } else {
            match spec_lookup(m, "link.input.port"@) {
                None => Err(DecodeErrV::MissingKey("link.input.port"@)),
                Some(ip) => if !spec_parseable_u32(ip) {
                    Err(DecodeErrV::MalformedValue("link.input.port"@))
                } else {
                    match spec_lookup(m, "link.output.node"@) {
                        None => Err(DecodeErrV::MissingKey("link.output.node"@)),
                        Some(on) => if !spec_parseable_u32(on) {
                            Err(DecodeErrV::MalformedValue("link.output.node"@))
                        } else {
                            match spec_lookup(m, "link.input.node"@) {
                                None => Err(DecodeErrV::MissingKey("link.input.node"@)),
                                Some(inn) => if !spec_parseable_u32(inn) {
                                    Err(DecodeErrV::MalformedValue("link.input.node"@))
                                } else {
                                    Ok(
                                        Link {
                                            id,
                                            output_port: dec_value(op) as u32,
                                            input_port: dec_value(ip) as u32,
                                            output_node: dec_value(on) as u32,
                                            input_node: dec_value(inn) as u32,
                                        },
                                    )
                                },
                            }
                        },
                    }
                },
            }
        },
    }
}

impl Link {
    /// Decode a link from its reported id and property dictionary.
    pub fn new(id: u32, props: &Props) -> (r: Result<Link, DecodeError>)
        ensures
            match r {
                Ok(l) => spec_decode_link(id, props@) == Ok::<Link, DecodeErrV>(l),
                Err(e) => spec_decode_link(id, props@) == Err::<Link, DecodeErrV>(e@),
            },
    {
        let op_s = match val(props, "link.output.port") {
            Ok(v) => v,
            Err(e) => return Err(e),
        };
        let output_port = match parse_u32(op_s.as_str()) {
            Some(v) => v,
            None => return Err(DecodeError::MalformedValue("link.output.port".to_owned())),
        };
        let ip_s = match val(props, "link.input.port") {
            Ok(v) => v,
            Err(e) => return Err(e),
        };
        let input_port = match parse_u32(ip_s.as_str()) {
            Some(v) => v,
            None => return Err(DecodeError::MalformedValue("link.input.port".to_owned())),
        };
        let on_s = match val(props, "link.output.node") {
            Ok(v) => v,
            Err(e) => return Err(e),
        };
        let output_node = match parse_u32(on_s.as_str()) {
            Some(v) => v,
            None => return Err(DecodeError::MalformedValue("link.output.node".to_owned())),
        };
        let in_s = match val(props, "link.input.node") {
            Ok(v) => v,
            Err(e) => return Err(e),
        };
        let input_node = match parse_u32(in_s.as_str()) {
            Some(v) => v,
            None => return Err(DecodeError::MalformedValue("link.input.node".to_owned())),
        };
        Ok(Link { id, output_port, input_port, output_node, input_node })
    }
}

} // verus!