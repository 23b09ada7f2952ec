use vstd::prelude::*;

use crate::action::Action;
use crate::errors::RmcsError;
use crate::json::{Json, JsonVal, jview, obj_find, obj_lookup};
use crate::wire::{key_detail, key_detail_bytes, key_event, key_event_bytes, tag_heartbeat,
    tag_heartbeat_bytes};

verus! {

// ---------------------------------------------------------------------------
// Agent-opened sessions. An inbound event payload is `{event: <tag>,
// detail: ...}`; the tag selects the handler. Only the heartbeat stream is
// known; anything else opens no session.
// ---------------------------------------------------------------------------

#[derive(Debug, Clone, Copy, PartialEq, Eq, Structural)]
pub enum Event {
    Heartbeat,
    Unknown,
}

/// How an event payload classifies: both envelope fields must be present,
/// the tag must be a string, and only the heartbeat tag opens a session.
pub open spec fn event_route(g: Json) -> Result<Event, RmcsError> {
    match g {
        Json::Obj(ms) => {
            if !(obj_lookup(ms, key_event()) matches Some(t) && t is Str) || obj_lookup(
                ms,
                key_detail(),
            ) is None {
                Err(RmcsError::ParseError)
            } else if obj_lookup(ms, key_event()) == Some(Json::Str(tag_heartbeat())) {
                Ok(Event::Heartbeat)
            } else {
                Err(RmcsError::UnknownEvent)
            }
        },
        _ => Err(RmcsError::ParseError),
    }
}

/// Classifies an inbound event payload as `event_route` says.
pub fn classify_event(content: &JsonVal) -> (r: Result<Event, RmcsError>)
    ensures
        r == event_route(jview(*content)),
{
    match content {
        JsonVal::Obj(members) => {
            let tag = crate::instructions::get_str_field(members, &key_event_bytes());
            let has_detail = match obj_find(members, &key_detail_bytes()) {
                Some(_) => true,
                None => false,
            };
            match tag {
                Some(t) => {
                    if !has_detail {
                        Err(RmcsError::ParseError)
                    } else if crate::json::bytes_eq(&t, &tag_heartbeat_bytes()) {
                        Ok(Event::Heartbeat)
                    } else {
                        Err(RmcsError::UnknownEvent)
                    }
                },
                None => Err(RmcsError::ParseError),
            }
        },
        _ => Err(RmcsError::ParseError),
    }
}


/// The parsed form of an event payload: the tag and its detail.
pub struct EventMessage {
    pub event: Event,
    pub detail: JsonVal,
}

/// An opened agent session: the spawned action and its classified event.
pub struct EventSession {
    pub action: Action,
    pub event: Event,
}

/// Parses an event payload whole: the routed tag together with the detail
/// carried beside it. Exactly the payloads that `event_route` accepts parse.
pub fn event_message_of_json(content: JsonVal) -> (r: Result<EventMessage, RmcsError>)
    ensures
        (r matches Ok(em) ==> event_route(jview(content)) == Ok::<Event, RmcsError>(em.event)
            && (jview(content) matches Json::Obj(ms) && obj_lookup(ms, key_detail()) == Some(
            jview(em.detail),
        ))),
        (r matches Err(e) ==> event_route(jview(content)) == Err::<Event, RmcsError>(e)),
{
    let event = match classify_event(&content) {
        Ok(ev) => ev,
        Err(e) => {
            return Err(e);
        },
    };
    match content {
        JsonVal::Obj(members) => {
            let mut members = members;
            let di = match obj_find(&members, &key_detail_bytes()) {
                Some(i) => i,
                None => {
                    proof {
                        assert(false);
                    }
                    return Err(RmcsError::ParseError);
                },
            };
            let (_k, detail) = members.remove(di);
            Ok(EventMessage { event, detail })
        },
        _ => {
            proof {
                assert(false);
            }
            Err(RmcsError::ParseError)
        },
    }
}

/// Opens the session an inbound event asks for: a live action under the
/// session id for a recognised event, and no session at all otherwise.
pub fn create_event_session(content: &JsonVal, session_id: Vec<u8>) -> (r: Result<
    EventSession,
    RmcsError,
>)
    ensures
        (r matches Ok(s) ==> event_route(jview(*content)) == Ok::<Event, RmcsError>(s.event)
            && s.action.session_id == session_id && s.action.live && !s.action.completed),
        (r matches Err(e) ==> event_route(jview(*content)) == Err::<Event, RmcsError>(e)),
{
    match classify_event(content) {
        Ok(event) => Ok(EventSession { action: Action::new(session_id), event }),
        Err(e) => Err(e),
    }
}

} // verus!
