use rmcs_actions_service::action::{Action, PingPong, PingPongState};
use rmcs_actions_service::api::ActionApi;
use rmcs_actions_service::connection::{
    AwaitOutcome, Connection, Effect, complete_instruction, immediate_resolution,
};
use rmcs_actions_service::errors::RmcsError;
use rmcs_actions_service::events::Event;
use rmcs_actions_service::heartbeat::heartbeat_step;
use rmcs_actions_service::instructions::{Instruction, InstructionContent};
use rmcs_actions_service::json::{JsonVal, json_encode};
use rmcs_actions_service::message::{Message, MessagePayload};

const SID: &[u8] = b"11111111-1111-1111-1111-111111111111";

fn heartbeat_open_frame() -> Vec<u8> {
    b"{\"session_id\":\"11111111-1111-1111-1111-111111111111\",\"local_timestamp\":0,\
      \"payload\":{\"type\":\"event\",\"content\":{\"event\":\"heartbeat\",\"detail\":{}}}}"
        .to_vec()
}

#[test]
fn heartbeat_echo_scenario() {
    let mut conn = Connection::new(b"r1".to_vec());
    // the event opens the session
    let effects = conn.recv(&heartbeat_open_frame()).unwrap();
    assert_eq!(effects.len(), 1);
    match &effects[0] {
        Effect::StartEventSession { session_id, event } => {
            assert_eq!(session_id.as_slice(), SID);
            assert_eq!(*event, Event::Heartbeat);
        }
        other => panic!("wrong effect: {:?}", other),
    }
    assert!(conn.sessions.contains(&SID.to_vec()));

    // the agent's response on the session resumes it
    let frame = b"{\"session_id\":\"11111111-1111-1111-1111-111111111111\",\"local_timestamp\":0,\
        \"payload\":{\"type\":\"response\",\"content\":{}}}"
        .to_vec();
    let effects = conn.recv(&frame).unwrap();
    assert_eq!(effects.len(), 1);
    match &effects[0] {
        Effect::Resume { session_id, content } => {
            assert_eq!(session_id.as_slice(), SID);
            assert_eq!(*content, JsonVal::Obj(vec![]));
        }
        other => panic!("wrong effect: {:?}", other),
    }

    // the heartbeat step answers with an empty response on the same session
    let reply = heartbeat_step(&SID.to_vec(), JsonVal::Obj(vec![])).unwrap();
    assert_eq!(reply.session_id.as_slice(), SID);
    match reply.payload {
        MessagePayload::Response { content } => assert_eq!(content, JsonVal::Obj(vec![])),
        other => panic!("wrong payload: {:?}", other),
    }
}

#[test]
fn heartbeat_step_rejects_non_object() {
    let r = heartbeat_step(&SID.to_vec(), JsonVal::Int(3));
    assert_eq!(r.unwrap_err(), RmcsError::ParseError);
}

#[test]
fn unknown_instruction_tolerated() {
    let mut conn = Connection::new(b"r1".to_vec());
    let _ = conn.recv(&heartbeat_open_frame()).unwrap();
    // instructions are server->agent; inbound ones are logged and dropped
    let frame = b"{\"session_id\":\"99999999-9999-9999-9999-999999999999\",\"local_timestamp\":0,\
        \"payload\":{\"type\":\"instruction\",\"content\":{\"instruction\":\"future_thing\",\"x\":1}}}"
        .to_vec();
    let effects = conn.recv(&frame).unwrap();
    assert_eq!(effects, vec![Effect::LogIllegalInstruction]);
    // the open session is untouched
    assert!(conn.sessions.contains(&SID.to_vec()));
    assert!(!conn.sessions.contains(&b"99999999-9999-9999-9999-999999999999".to_vec()));
}

#[test]
fn unknown_session_response_dropped() {
    let mut conn = Connection::new(b"r1".to_vec());
    let _ = conn.recv(&heartbeat_open_frame()).unwrap();
    let frame = b"{\"session_id\":\"77777777-7777-7777-7777-777777777777\",\"local_timestamp\":0,\
        \"payload\":{\"type\":\"response\",\"content\":{}}}"
        .to_vec();
    let effects = conn.recv(&frame).unwrap();
    match &effects[0] {
        Effect::LogUnknownSessionResponse { session_id } => {
            assert_eq!(session_id.as_slice(), b"77777777-7777-7777-7777-777777777777");
        }
        other => panic!("wrong effect: {:?}", other),
    }
    // the link survives and the other session is unaffected
    assert!(conn.sessions.contains(&SID.to_vec()));
}

#[test]
fn close_removes_session() {
    let mut conn = Connection::new(b"r1".to_vec());
    let _ = conn.recv(&heartbeat_open_frame()).unwrap();
    assert!(conn.sessions.contains(&SID.to_vec()));
    let frame = b"{\"session_id\":\"11111111-1111-1111-1111-111111111111\",\"local_timestamp\":0,\
        \"payload\":{\"type\":\"close\"}}"
        .to_vec();
    let effects = conn.recv(&frame).unwrap();
    match &effects[0] {
        Effect::CloseSession { session_id } => assert_eq!(session_id.as_slice(), SID),
        other => panic!("wrong effect: {:?}", other),
    }
    assert!(!conn.sessions.contains(&SID.to_vec()));

    // a second close for the now unknown session is logged and ignored
    let frame = b"{\"session_id\":\"11111111-1111-1111-1111-111111111111\",\"local_timestamp\":0,\
        \"payload\":{\"type\":\"close\"}}"
        .to_vec();
    let effects = conn.recv(&frame).unwrap();
    match &effects[0] {
        Effect::LogUnknownSessionClose { session_id } => assert_eq!(session_id.as_slice(), SID),
        other => panic!("wrong effect: {:?}", other),
    }
}

#[test]
fn unknown_event_opens_no_session() {
    let mut conn = Connection::new(b"r1".to_vec());
    let frame = b"{\"session_id\":\"11111111-1111-1111-1111-111111111111\",\"local_timestamp\":0,\
        \"payload\":{\"type\":\"event\",\"content\":{\"event\":\"mystery\",\"detail\":{}}}}"
        .to_vec();
    let effects = conn.recv(&frame).unwrap();
    match &effects[0] {
        Effect::RejectEvent { session_id, reason } => {
            assert_eq!(session_id.as_slice(), SID);
            assert_eq!(*reason, RmcsError::UnknownEvent);
        }
        other => panic!("wrong effect: {:?}", other),
    }
    assert!(!conn.sessions.contains(&SID.to_vec()));
}

#[test]
fn malformed_frame_keeps_link() {
    let mut conn = Connection::new(b"r1".to_vec());
    let _ = conn.recv(&heartbeat_open_frame()).unwrap();
    let r = conn.recv(&b"{not json".to_vec());
    assert_eq!(r.unwrap_err(), RmcsError::ParseError);
    assert!(conn.sessions.contains(&SID.to_vec()));
}

#[test]
fn replacing_event_session_aborts_old() {
    let mut conn = Connection::new(b"r1".to_vec());
    let _ = conn.recv(&heartbeat_open_frame()).unwrap();
    let effects = conn.recv(&heartbeat_open_frame()).unwrap();
    assert_eq!(effects.len(), 2);
    match (&effects[0], &effects[1]) {
        (
            Effect::AbortReplaced { session_id: a },
            Effect::StartEventSession { session_id: b, event },
        ) => {
            assert_eq!(a.as_slice(), SID);
            assert_eq!(b.as_slice(), SID);
            assert_eq!(*event, Event::Heartbeat);
        }
        other => panic!("wrong effects: {:?}", other),
    }
}

#[test]
fn prepare_instruction_registers_session() {
    let mut conn = Connection::new(b"r1".to_vec());
    let (msg, wants) = conn.prepare_instruction(Instruction::FetchNetwork {});
    assert!(wants);
    assert_eq!(msg.session_id.len(), 36);
    assert!(conn.sessions.contains(&msg.session_id));
    match msg.payload {
        MessagePayload::Instruction { content } => {
            assert_eq!(content, InstructionContent::FetchNetwork {});
        }
        other => panic!("wrong payload: {:?}", other),
    }
    // the wire form of the prepared message
    let text = json_encode(&rmcs_actions_service::message::payload_to_json(
        MessagePayload::Instruction { content: InstructionContent::FetchNetwork {} },
    ));
    assert_eq!(
        String::from_utf8(text).unwrap(),
        "{\"type\":\"instruction\",\"content\":{\"instruction\":\"fetch_network\"}}"
    );
}

#[test]
fn once_shot_instruction_resolves_immediately() {
    let mut conn = Connection::new(b"r1".to_vec());
    let (_msg, wants) = conn.prepare_instruction(Instruction::SyncRobotName {
        robot_name: b"atlas".to_vec(),
    });
    assert!(!wants);
    let resolved = immediate_resolution(wants);
    assert_eq!(resolved, Some(JsonVal::Obj(vec![])));
    assert_eq!(immediate_resolution(true), None);
}

#[test]
fn dropped_channel_resolves_with_channel_closed() {
    // the link went down before the agent replied: the await fails, it
    // never hangs
    let r = complete_instruction(AwaitOutcome::ChannelDropped);
    assert_eq!(r.unwrap_err(), RmcsError::ChannelClosed);
    let ok = complete_instruction(AwaitOutcome::Received(JsonVal::Int(5)));
    assert_eq!(ok.unwrap(), JsonVal::Int(5));
}

#[test]
fn disconnect_cancels_pending_fetch() {
    let api = ActionApi;
    // directory entry already gone
    let r = api.fetch_network_reply(None);
    assert_eq!(
        r.unwrap_err(),
        rmcs_actions_service::api::ApiError::BadRequest(RmcsError::AgentNotConnected)
    );
    // link dropped mid-session
    let r = api.fetch_network_reply(Some(Err(RmcsError::ChannelClosed)));
    assert_eq!(
        r.unwrap_err(),
        rmcs_actions_service::api::ApiError::BadRequest(RmcsError::ChannelClosed)
    );
}

#[test]
fn action_lifecycle() {
    let mut a = Action::new(b"s".to_vec());
    assert!(a.live);
    assert_eq!(a.resume(JsonVal::Int(1)).unwrap(), JsonVal::Int(1));
    a.abort();
    assert!(!a.live);
    assert!(!a.completed);
    a.abort(); // safe to call twice
    assert_eq!(a.resume(JsonVal::Int(2)).unwrap_err(), RmcsError::ChannelClosed);

    let mut b = Action::new(b"s".to_vec());
    assert!(b.finish());
    assert!(b.completed);
}

#[test]
fn ping_pong_paths_exclude_each_other() {
    let mut p = PingPong::new(b"s".to_vec());
    assert_eq!(p.state, PingPongState::Sent);
    let got = p.on_response(JsonVal::Bool(true));
    assert_eq!(got, JsonVal::Bool(true));
    assert_eq!(p.state, PingPongState::Done);

    let mut q = PingPong::new(b"s".to_vec());
    q.on_close();
    assert_eq!(q.state, PingPongState::Closed);
}

#[test]
fn abort_session_removes_entry() {
    let mut conn = Connection::new(b"r1".to_vec());
    let _ = conn.recv(&heartbeat_open_frame()).unwrap();
    assert!(conn.sessions.contains(&SID.to_vec()));
    assert!(conn.abort_session(&SID.to_vec()));
    assert!(!conn.sessions.contains(&SID.to_vec()));
    // aborting an absent session is safe
    assert!(!conn.abort_session(&SID.to_vec()));
}

#[test]
fn complete_session_self_cleans() {
    let mut conn = Connection::new(b"r1".to_vec());
    let (msg, _) = conn.prepare_instruction(Instruction::UpdateMetadata {});
    assert!(conn.sessions.contains(&msg.session_id));
    conn.complete_session(&msg.session_id);
    assert!(!conn.sessions.contains(&msg.session_id));
}
