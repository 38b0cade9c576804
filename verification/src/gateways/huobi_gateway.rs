//! The Huobi market data gateway.  Its connection and the recording of what
//! it receives stand outside the library; the answer to its heartbeat is here.
use crate::engine::error::EngineError;
use crate::utils::json::JsonValue;
use crate::utils::text::{parse_usize, starts_with, usize_text};
use crate::utils::time::{natural_text, usize_to_string};
use vstd::prelude::*;

verus! {

/// The Huobi market data gateway.
pub struct HuobiGateway {
    pub address: String,
}

/// The heartbeat number of a message: its member `ping`, a number written
/// as an unsigned integer; `None` for a message without `ping`; an error for
/// a message that is no object or whose `ping` is no such number.
pub open spec fn heartbeat(message: JsonValue) -> Result<Option<usize>, EngineError> {
    match message {
        JsonValue::Object(_) => match message.spec_get("ping"@) {
            None => Ok(None),
            Some(p) => match p.spec_as_number() {
                Some(t) => match usize_text(t@) {
                    Some(n) => Ok(Some(n)),
                    None => Err(EngineError::Malformed),
                },
                None => Err(EngineError::Malformed),
            },
        },
        _ => Err(EngineError::Malformed),
    }
}

/// The answer to a heartbeat of the feed: for a text that begins with
/// `{"ping":` and the message it holds, `{"pong":n}` where `n` is the
/// message's `ping`; `None` for other texts and for messages without `ping`.
pub fn pong_reply(text: &str, message: &JsonValue) -> (r: Result<Option<String>, EngineError>)
    ensures
        !(text@.len() >= 8 && text@.subrange(0, 8) == "{\"ping\":"@) ==> r == Ok::<Option<String>, EngineError>(None),
        text@.len() >= 8 && text@.subrange(0, 8) == "{\"ping\":"@ ==> match heartbeat(*message) {
            Ok(Some(n)) => r matches Ok(Some(s)) && s@ == "{\"pong\":"@ + natural_text(n as nat) + "}"@,
            Ok(None) => r == Ok::<Option<String>, EngineError>(None),
            Err(e) => r == Err::<Option<String>, EngineError>(e),
        },
{
    proof {
        reveal_strlit("{\"ping\":");
    }
    if !starts_with(text, "{\"ping\":") {
        return Ok(None);
    }
    match message {
        JsonValue::Object(_) => {},
        _ => {
            return Err(EngineError::Malformed);
        },
    }
    let n = match message.get("ping") {
        None => {
            return Ok(None);
        },
        Some(p) => match p.as_number() {
            Some(t) => match parse_usize(t.as_str()) {
                Some(n) => n,
                None => {
                    return Err(EngineError::Malformed);
                },
            },
            None => {
                return Err(EngineError::Malformed);
            },
        },
    };
    let reply = String::from_str("{\"pong\":").concat(usize_to_string(n).as_str()).concat("}");
    Ok(Some(reply))
}

} // verus!
