use vstd::prelude::*;

use crate::errors::RmcsError;
use crate::json::{Json, JsonVal, bytes_copy, jview, jview_members};
use crate::message::{Message, MessagePayload};

verus! {

// ---------------------------------------------------------------------------
// The heartbeat stream: on each inbound heartbeat detail the handler sends
// an empty response back on the same session, until the session is closed.
// ---------------------------------------------------------------------------

pub struct HeartbeatDetail {}

pub struct HeartbeatResponse {}

/// What a heartbeat detail must be: any object; its members are ignored.
pub open spec fn heartbeat_accepts(g: Json) -> bool {
    g is Obj
}

/// The empty object that a heartbeat response carries.
pub open spec fn heartbeat_response_model() -> Json {
    Json::Obj(Seq::empty())
}

impl HeartbeatResponse {
    /// The response's wire content.
    pub fn to_json(&self) -> (r: JsonVal)
        ensures
            jview(r) == heartbeat_response_model(),
    {
        let members: Vec<(Vec<u8>, JsonVal)> = Vec::new();
        proof {
            assert(jview_members(members@) =~= Seq::<(Seq<u8>, Json)>::empty());
        }
        JsonVal::Obj(members)
    }
}

/// One step of the heartbeat stream: an accepted detail yields the response
/// message on the same session; anything else ends the session with a parse
/// error, exactly as stated.
pub fn heartbeat_step(session_id: &Vec<u8>, detail: JsonVal) -> (r: Result<Message, RmcsError>)
    ensures
        match r {
            Ok(m) => heartbeat_accepts(jview(detail)) && m.session_id@ == session_id@ && (
            m.payload matches MessagePayload::Response { content } && jview(content)
                == heartbeat_response_model()),
            Err(e) => !heartbeat_accepts(jview(detail)) && e == RmcsError::ParseError,
        },
{
    match &detail {
        JsonVal::Obj(_) => {
            let response = HeartbeatResponse {  };
            let m = Message::new_response_with_uuid(bytes_copy(session_id), response.to_json());
            Ok(m)
        },
        _ => Err(RmcsError::ParseError),
    }
}

} // verus!
