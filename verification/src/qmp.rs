//! Reading QMP replies: which message answers a command, the guest status
//! and the VNC port.

use vstd::prelude::*;

use crate::text::{chars_of, parse_u16, parse_u16_spec};

verus! {

/// The `service` member of a `query-vnc` reply.
pub enum VncService {
    Absent,
    /// A JSON string.
    Text(String),
    /// A JSON number that fits `u64`.
    Number(u64),
    /// Any other JSON value.
    Other,
}

/// The VNC port of a `query-vnc` reply: none unless `enabled` is `true`;
/// the service as a decimal port, else as a number (kept to its low 16 bits).
pub open spec fn vnc_port_spec(enabled: Option<bool>, service: VncService) -> Option<u16> {
    if enabled != Some(true) {
        None
    } else {
        match service {
            VncService::Text(s) => parse_u16_spec(s@),
            VncService::Number(n) => Some((n % 65536) as u16),
            _ => None,
        }
    }
}

pub fn vnc_port_from_reply(enabled: Option<bool>, service: &VncService) -> (r: Option<u16>)
    ensures
        r == vnc_port_spec(enabled, *service),
{
    match enabled {
        Some(true) => {},
        _ => return None,
    }
    match service {
        VncService::Text(s) => parse_u16(chars_of(s.as_str()).as_slice()),
        VncService::Number(n) => Some((*n % 65536) as u16),
        _ => None,
    }
}

/// The guest status of a `query-status` reply; `"unknown"` when it holds none.
pub fn status_text(status: Option<&str>) -> (r: String)
    ensures
        r@ == match status {
            Some(s) => s@,
            None => "unknown"@,
        },
{
    match status {
        Some(s) => String::from_str(s),
        None => String::from_str("unknown"),
    }
}

/// What a client waiting for the answer to its command does with a message.
#[derive(PartialEq, Eq, Structural, Debug, Clone, Copy)]
pub enum ReplyStep {
    /// An event, or a message that answers nothing: read the next one.
    Next,
    /// The command failed.
    Failed,
    /// The command returned.
    Returned,
}

/// The step for a message with (or without) the `event`, `error` and
/// `return` members: events are passed over first, then an error wins over
/// a return.
pub fn reply_step(has_event: bool, has_error: bool, has_return: bool) -> (r: ReplyStep)
    ensures
        r == (if has_event {
            ReplyStep::Next
        } else if has_error {
            ReplyStep::Failed
        } else if has_return {
            ReplyStep::Returned
        } else {
            ReplyStep::Next
        }),
{
    if has_event {
        ReplyStep::Next
    } else if has_error {
        ReplyStep::Failed
    } else if has_return {
        ReplyStep::Returned
    } else {
        ReplyStep::Next
    }
}

} // verus!
