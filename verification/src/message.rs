use vstd::prelude::*;

use crate::errors::RmcsError;
use crate::instructions::{
    InstructionContent, instr_decodes_to, instr_jmodel, instr_of_json, instr_to_json, known_instr,
    wf_instr,
};
use crate::json::{
    Json, JsonVal, json_encode, json_text, jview, jview_members,
    lemma_jview_members_one, lemma_jview_members_three, lemma_jview_members_two, obj_find,
    obj_lookup, spec_parse_json, wf_json,
};
use crate::trusted::{is_uuid_text, now_millis};
use crate::wire::{
    key_content, key_content_bytes, key_local_timestamp, key_local_timestamp_bytes, key_payload,
    key_payload_bytes, key_session_id, key_session_id_bytes, key_type, key_type_bytes, tag_close,
    tag_close_bytes, tag_event, tag_event_bytes, tag_instruction, tag_instruction_bytes,
    tag_response, tag_response_bytes,
};

verus! {

// ---------------------------------------------------------------------------
// The wire envelope: a session id, a millisecond timestamp, and a tagged
// payload. The payload discriminator is the `type` field; unrecognised
// payloads are carried whole, never dropped.
// ---------------------------------------------------------------------------

#[derive(Debug, PartialEq, Eq)]
pub enum MessagePayload {
    Instruction { content: InstructionContent },
    Event { content: JsonVal },
    Response { content: JsonVal },
    Close,
    Unknown(JsonVal),
}

#[derive(Debug, PartialEq, Eq)]
pub struct Message {
    pub session_id: Vec<u8>,
    pub local_timestamp: i64,
    pub payload: MessagePayload,
}

/// The JSON a payload stands for.
pub open spec fn payload_jmodel(p: MessagePayload) -> Json {
    match p {
        MessagePayload::Instruction { content } => Json::Obj(
            seq![
                (key_type(), Json::Str(tag_instruction())),
                (key_content(), instr_jmodel(content)),
            ],
        ),
        MessagePayload::Event { content } => Json::Obj(
            seq![(key_type(), Json::Str(tag_event())), (key_content(), jview(content))],
        ),
        MessagePayload::Response { content } => Json::Obj(
            seq![(key_type(), Json::Str(tag_response())), (key_content(), jview(content))],
        ),
        MessagePayload::Close => Json::Obj(seq![(key_type(), Json::Str(tag_close()))]),
        MessagePayload::Unknown(v) => jview(v),
    }
}

/// The JSON a whole message stands for: the three envelope fields in order.
pub open spec fn message_jmodel(m: Message) -> Json {
    Json::Obj(
        seq![
            (key_session_id(), Json::Str(m.session_id@)),
            (key_local_timestamp(), Json::Int(m.local_timestamp as int)),
            (key_payload(), payload_jmodel(m.payload)),
        ],
    )
}

pub open spec fn wf_payload(p: MessagePayload) -> bool {
    match p {
        MessagePayload::Instruction { content } => wf_instr(content),
        MessagePayload::Event { content } => wf_json(jview(content)),
        MessagePayload::Response { content } => wf_json(jview(content)),
        MessagePayload::Close => true,
        MessagePayload::Unknown(v) => wf_json(jview(v)),
    }
}

pub open spec fn wf_message(m: Message) -> bool {
    is_uuid_text(m.session_id@) && wf_payload(m.payload)
}

/// A payload whose discriminator the service understands.
pub open spec fn known_payload(p: MessagePayload) -> bool {
    match p {
        MessagePayload::Instruction { content } => known_instr(content),
        MessagePayload::Unknown(_) => false,
        _ => true,
    }
}

// ---------------------------------------------------------------------------
// How a payload reads
// ---------------------------------------------------------------------------

pub open spec fn payload_tag_of(g: Json) -> Option<Json> {
    match g {
        Json::Obj(ms) => obj_lookup(ms, key_type()),
        _ => None,
    }
}

pub open spec fn content_field(g: Json) -> Option<Json> {
    match g {
        Json::Obj(ms) => obj_lookup(ms, key_content()),
        _ => None,
    }
}

/// How a payload reads: the `type` discriminator selects the variant; a
/// missing content where one is required, or a foreign discriminator, leaves
/// the value whole as `Unknown`.
pub open spec fn payload_decodes_to(g: Json, q: MessagePayload) -> bool {
    if payload_tag_of(g) == Some(Json::Str(tag_instruction())) {
        match content_field(g) {
            Some(c) => q matches MessagePayload::Instruction { content } && instr_decodes_to(
                c,
                content,
            ),
            None => q matches MessagePayload::Unknown(v) && jview(v) == g,
        }
    } else if payload_tag_of(g) == Some(Json::Str(tag_event())) {
        match content_field(g) {
            Some(c) => q matches MessagePayload::Event { content } && jview(content) == c,
            None => q matches MessagePayload::Unknown(v) && jview(v) == g,
        }
    } else if payload_tag_of(g) == Some(Json::Str(tag_response())) {
        match content_field(g) {
            Some(c) => q matches MessagePayload::Response { content } && jview(content) == c,
            None => q matches MessagePayload::Unknown(v) && jview(v) == g,
        }
    } else if payload_tag_of(g) == Some(Json::Str(tag_close())) {
        q is Close
    } else {
        q matches MessagePayload::Unknown(v) && jview(v) == g
    }
}

/// How a whole message reads: session id a canonical UUID string, timestamp
/// an integer, payload present and read as above. Other members are ignored.
pub open spec fn message_decodes_to(g: Json, m: Message) -> bool {
    match g {
        Json::Obj(ms) => {
            &&& obj_lookup(ms, key_session_id()) == Some(Json::Str(m.session_id@))
            &&& is_uuid_text(m.session_id@)
            &&& obj_lookup(ms, key_local_timestamp()) == Some(
                Json::Int(m.local_timestamp as int),
            )
            &&& match obj_lookup(ms, key_payload()) {
                Some(p) => payload_decodes_to(p, m.payload),
                None => false,
            }
        },
        _ => false,
    }
}

/// Whether a JSON value reads as a message at all.
pub open spec fn message_decodable(g: Json) -> bool {
    match g {
        Json::Obj(ms) => {
            &&& (obj_lookup(ms, key_session_id()) matches Some(sv) && sv matches Json::Str(s)
                && is_uuid_text(s))
            &&& (obj_lookup(ms, key_local_timestamp()) matches Some(tv) && tv matches Json::Int(n)
                && i64::MIN <= n <= i64::MAX)
            &&& obj_lookup(ms, key_payload()) is Some
        },
        _ => false,
    }
}

// ---------------------------------------------------------------------------
// Constructors
// ---------------------------------------------------------------------------

impl Message {
    /// An event message on the given session, stamped with the current time.
    pub fn new_event_with_uuid(session_id: Vec<u8>, payload: JsonVal) -> (m: Message)
        ensures
            m.session_id == session_id,
            m.payload matches MessagePayload::Event { content } && content == payload,
    {
        Message {
            session_id,
            local_timestamp: now_millis(),
            payload: MessagePayload::Event { content: payload },
        }
    }

    /// A response message on the given session, stamped with the current time.
    pub fn new_response_with_uuid(session_id: Vec<u8>, payload: JsonVal) -> (m: Message)
        ensures
            m.session_id == session_id,
            m.payload matches MessagePayload::Response { content } && content == payload,
    {
        Message {
            session_id,
            local_timestamp: now_millis(),
            payload: MessagePayload::Response { content: payload },
        }
    }

    /// An instruction message on the given session, stamped with the current
    /// time.
    pub fn new_instruction_with_uuid(session_id: Vec<u8>, content: InstructionContent) -> (m:
        Message)
        ensures
            m.session_id == session_id,
            m.payload matches MessagePayload::Instruction { content: c } && c == content,
    {
        Message {
            session_id,
            local_timestamp: now_millis(),
            payload: MessagePayload::Instruction { content },
        }
    }
}

// ---------------------------------------------------------------------------
// Writing
// ---------------------------------------------------------------------------

/// Writes a payload as `payload_jmodel` says.
pub fn payload_to_json(p: MessagePayload) -> (r: JsonVal)
    ensures
        jview(r) == payload_jmodel(p),
{
    match p {
        MessagePayload::Instruction { content } => {
            let mut members: Vec<(Vec<u8>, JsonVal)> = Vec::new();
            members.push((key_type_bytes(), JsonVal::Str(tag_instruction_bytes())));
            members.push((key_content_bytes(), instr_to_json(content)));
            proof {
                lemma_jview_members_two(members@);
            }
            JsonVal::Obj(members)
        },
        MessagePayload::Event { content } => {
            let mut members: Vec<(Vec<u8>, JsonVal)> = Vec::new();
            members.push((key_type_bytes(), JsonVal::Str(tag_event_bytes())));
            members.push((key_content_bytes(), content));
            proof {
                lemma_jview_members_two(members@);
            }
            JsonVal::Obj(members)
        },
        MessagePayload::Response { content } => {
            let mut members: Vec<(Vec<u8>, JsonVal)> = Vec::new();
            members.push((key_type_bytes(), JsonVal::Str(tag_response_bytes())));
            members.push((key_content_bytes(), content));
            proof {
                lemma_jview_members_two(members@);
            }
            JsonVal::Obj(members)
        },
        MessagePayload::Close => {
            let mut members: Vec<(Vec<u8>, JsonVal)> = Vec::new();
            members.push((key_type_bytes(), JsonVal::Str(tag_close_bytes())));
            proof {
                lemma_jview_members_one(members@);
            }
            JsonVal::Obj(members)
        },
        MessagePayload::Unknown(v) => v,
    }
}

/// Writes a message as `message_jmodel` says.
pub fn message_to_json(m: Message) -> (r: JsonVal)
    ensures
        jview(r) == message_jmodel(m),
{
    let Message { session_id, local_timestamp, payload } = m;
    let mut members: Vec<(Vec<u8>, JsonVal)> = Vec::new();
    members.push((key_session_id_bytes(), JsonVal::Str(session_id)));
    members.push((key_local_timestamp_bytes(), JsonVal::Int(local_timestamp)));
    members.push((key_payload_bytes(), payload_to_json(payload)));
    proof {
        lemma_jview_members_three(members@);
    }
    JsonVal::Obj(members)
}

/// The canonical wire text of a message.
pub fn encode_message(m: Message) -> (out: Vec<u8>)
    ensures
        out@ == json_text(message_jmodel(m)),
{
    let v = message_to_json(m);
    json_encode(&v)
}

// ---------------------------------------------------------------------------
// Reading
// ---------------------------------------------------------------------------

/// Whether the bytes spell a canonical hyphenated UUID.
pub fn check_uuid_text(s: &Vec<u8>) -> (r: bool)
    ensures
        r == is_uuid_text(s@),
{
    if s.len() != 36 {
        return false;
    }
    let mut k: usize = 0;
    while k < 36
        invariant
            k <= 36,
            s@.len() == 36,
            forall|i: int|
                0 <= i < k ==> (if i == 8 || i == 13 || i == 18 || i == 23 {
                    s@[i] == 45
                } else {
                    crate::trusted::is_hex_digit(#[trigger] s@[i])
                }),
        decreases 36 - k,
    {
        let b = s[k];
        if k == 8 || k == 13 || k == 18 || k == 23 {
            if b != 45 {
                return false;
            }
        } else {
            if !((48 <= b && b <= 57) || (97 <= b && b <= 102) || (65 <= b && b <= 70)) {
                return false;
            }
        }
        k += 1;
    }
    true
}

/// Reads a payload as `payload_decodes_to` says. Total: whatever does not
/// read as a known payload is kept whole.
pub fn payload_of_json(p: JsonVal) -> (q: MessagePayload)
    ensures
        payload_decodes_to(jview(p), q),
{
    let mut route: usize = 0;
    let mut cidx: usize = 0;
    let mut has_content = false;
    match &p {
        JsonVal::Obj(members) => {
            let tag = crate::instructions::get_str_field(members, &key_type_bytes());
            match tag {
                Some(t) => {
                    if crate::json::bytes_eq(&t, &tag_instruction_bytes()) {
                        route = 1;
                    } else if crate::json::bytes_eq(&t, &tag_event_bytes()) {
                        route = 2;
                    } else if crate::json::bytes_eq(&t, &tag_response_bytes()) {
                        route = 3;
                    } else if crate::json::bytes_eq(&t, &tag_close_bytes()) {
                        route = 4;
                    }
                },
                None => {},
            }
            match obj_find(members, &key_content_bytes()) {
                Some(i) => {
                    cidx = i;
                    has_content = true;
                },
                None => {},
            }
        },
        _ => {},
    }
    if route == 0 || (route != 4 && !has_content) {
        return MessagePayload::Unknown(p);
    }
    if route == 4 {
        return MessagePayload::Close;
    }
    match p {
        JsonVal::Obj(members) => {
            let mut members = members;
            let (_k, c) = members.remove(cidx);
            if route == 1 {
                MessagePayload::Instruction { content: instr_of_json(c) }
            } else if route == 2 {
                MessagePayload::Event { content: c }
            } else {
                MessagePayload::Response { content: c }
            }
        },
        _ => {
            proof {
                assert(false);
            }
            MessagePayload::Close
        },
    }
}

/// Reads a message from a JSON value as `message_decodes_to` says; rejects
/// what does not carry the three envelope fields in readable form.
pub fn json_to_message(v: JsonVal) -> (r: Result<Message, RmcsError>)
    ensures
        match r {
            Ok(m) => message_decodes_to(jview(v), m) && message_decodable(jview(v)),
            Err(e) => !message_decodable(jview(v)) && e == RmcsError::ParseError,
        },
{
    let mut sid: Option<Vec<u8>> = None;
    let mut ts: Option<i64> = None;
    let mut pidx: Option<usize> = None;
    match &v {
        JsonVal::Obj(members) => {
            let sid_raw = crate::instructions::get_str_field(members, &key_session_id_bytes());
            match sid_raw {
                Some(s) => {
                    if check_uuid_text(&s) {
                        sid = Some(s);
                    }
                },
                None => {},
            }
            match obj_find(members, &key_local_timestamp_bytes()) {
                Some(i) => match &members[i].1 {
                    JsonVal::Int(n) => {
                        ts = Some(*n);
                    },
                    _ => {},
                },
                None => {},
            }
            pidx = obj_find(members, &key_payload_bytes());
        },
        _ => {},
    }
    match (sid, ts, pidx) {
        (Some(session_id), Some(local_timestamp), Some(pi)) => {
            match v {
                JsonVal::Obj(members) => {
                    let mut members = members;
                    let (_k, p) = members.remove(pi);
                    let payload = payload_of_json(p);
                    Ok(Message { session_id, local_timestamp, payload })
                },
                _ => {
                    proof {
                        assert(false);
                    }
                    Err(RmcsError::ParseError)
                },
            }
        },
        _ => Err(RmcsError::ParseError),
    }
}

/// Reads one wire frame: one JSON value spanning the whole input but for
/// whitespace, then the envelope. Says exactly on which inputs it succeeds.
pub fn decode_message(s: &Vec<u8>) -> (r: Result<Message, RmcsError>)
    ensures
        match r {
            Ok(m) => spec_parse_json(s@, 0) matches Some((g, j)) && crate::json::ws_only_from(
                s@,
                j,
            ) && message_decodes_to(g, m),
            Err(e) => e == RmcsError::ParseError && !(spec_parse_json(s@, 0) matches Some((g, j))
                && crate::json::ws_only_from(s@, j) && message_decodable(g)),
        },
{
    match crate::json::json_parse(s) {
        Some(v) => json_to_message(v),
        None => Err(RmcsError::ParseError),
    }
}


// ---------------------------------------------------------------------------
// Round trip of the envelope
// ---------------------------------------------------------------------------

/// Payloads equal in every observable field.
pub open spec fn payload_view_eq(a: MessagePayload, b: MessagePayload) -> bool {
    match (a, b) {
        (
            MessagePayload::Instruction { content: x },
            MessagePayload::Instruction { content: y },
        ) => crate::instructions::instr_view_eq(x, y),
        (MessagePayload::Event { content: x }, MessagePayload::Event { content: y }) => jview(x)
            == jview(y),
        (MessagePayload::Response { content: x }, MessagePayload::Response { content: y }) => jview(
            x,
        ) == jview(y),
        (MessagePayload::Close, MessagePayload::Close) => true,
        (MessagePayload::Unknown(x), MessagePayload::Unknown(y)) => jview(x) == jview(y),
        _ => false,
    }
}

/// The JSON of a well-formed payload is well formed.
pub proof fn lemma_wf_payload_jmodel(p: MessagePayload)
    requires
        wf_payload(p),
    ensures
        wf_json(payload_jmodel(p)),
{
    let e = Seq::<(Seq<u8>, Json)>::empty();
    assert(crate::json::wf_json_members(e));
    match p {
        MessagePayload::Instruction { content } => {
            crate::instructions::lemma_wf_instr_jmodel(content);
            let ms = seq![
                (key_type(), Json::Str(tag_instruction())),
                (key_content(), instr_jmodel(content)),
            ];
            assert(ms.drop_first() =~= seq![ms[1]]);
            assert(seq![ms[1]].drop_first() =~= e);
            assert(ms[1] == (key_content(), instr_jmodel(content)));
            assert(ms[0] == (key_type(), Json::Str(tag_instruction())));
            assert(wf_json(Json::Str(tag_instruction())));
            assert(crate::json::wf_json_members(seq![ms[1]]));
            assert(crate::json::wf_json_members(ms));
        },
        MessagePayload::Event { content } => {
            let ms = seq![(key_type(), Json::Str(tag_event())), (key_content(), jview(content))];
            assert(ms.drop_first() =~= seq![ms[1]]);
            assert(seq![ms[1]].drop_first() =~= e);
            assert(ms[1] == (key_content(), jview(content)));
            assert(ms[0] == (key_type(), Json::Str(tag_event())));
            assert(wf_json(Json::Str(tag_event())));
            assert(crate::json::wf_json_members(seq![ms[1]]));
            assert(crate::json::wf_json_members(ms));
        },
        MessagePayload::Response { content } => {
            let ms = seq![(key_type(), Json::Str(tag_response())), (key_content(), jview(content))];
            assert(ms.drop_first() =~= seq![ms[1]]);
            assert(seq![ms[1]].drop_first() =~= e);
            assert(ms[1] == (key_content(), jview(content)));
            assert(ms[0] == (key_type(), Json::Str(tag_response())));
            assert(wf_json(Json::Str(tag_response())));
            assert(crate::json::wf_json_members(seq![ms[1]]));
            assert(crate::json::wf_json_members(ms));
        },
        MessagePayload::Close => {
            let ms = seq![(key_type(), Json::Str(tag_close()))];
            assert(ms.drop_first() =~= e);
            assert(ms[0] == (key_type(), Json::Str(tag_close())));
            assert(wf_json(Json::Str(tag_close())));
            assert(crate::json::wf_json_members(ms));
        },
        MessagePayload::Unknown(_) => {},
    }
}

/// The JSON of a well-formed message is well formed.
pub proof fn lemma_wf_message_jmodel(m: Message)
    requires
        wf_message(m),
    ensures
        wf_json(message_jmodel(m)),
{
    lemma_wf_payload_jmodel(m.payload);
    let e = Seq::<(Seq<u8>, Json)>::empty();
    assert(crate::json::wf_json_members(e));
    let ms = seq![
        (key_session_id(), Json::Str(m.session_id@)),
        (key_local_timestamp(), Json::Int(m.local_timestamp as int)),
        (key_payload(), payload_jmodel(m.payload)),
    ];
    assert(ms.drop_first() =~= seq![ms[1], ms[2]]);
    assert(seq![ms[1], ms[2]].drop_first() =~= seq![ms[2]]);
    assert(seq![ms[2]].drop_first() =~= e);
    assert(ms[0] == (key_session_id(), Json::Str(m.session_id@)));
    assert(ms[1] == (key_local_timestamp(), Json::Int(m.local_timestamp as int)));
    assert(ms[2] == (key_payload(), payload_jmodel(m.payload)));
    assert(wf_json(Json::Str(m.session_id@)));
    assert(wf_json(Json::Int(m.local_timestamp as int)));
    assert(crate::json::wf_json_members(seq![ms[2]]));
    assert(crate::json::wf_json_members(seq![ms[1], ms[2]]));
    assert(crate::json::wf_json_members(ms));
}

/// The three envelope lookups on a message's own JSON.
proof fn lemma_jmodel_lookups(m: Message)
    ensures
        message_jmodel(m) matches Json::Obj(ms) && obj_lookup(ms, key_session_id()) == Some(
            Json::Str(m.session_id@),
        ) && obj_lookup(ms, key_local_timestamp()) == Some(Json::Int(m.local_timestamp as int))
            && obj_lookup(ms, key_payload()) == Some(payload_jmodel(m.payload)),
{
    let ms = seq![
        (key_session_id(), Json::Str(m.session_id@)),
        (key_local_timestamp(), Json::Int(m.local_timestamp as int)),
        (key_payload(), payload_jmodel(m.payload)),
    ];
    assert(key_session_id().len() == 10);
    assert(key_local_timestamp().len() == 15);
    assert(key_payload().len() == 7);
    assert(ms[0] == (key_session_id(), Json::Str(m.session_id@)));
    assert(ms[1] == (key_local_timestamp(), Json::Int(m.local_timestamp as int)));
    assert(ms[2] == (key_payload(), payload_jmodel(m.payload)));
    assert(ms.drop_first() =~= seq![ms[1], ms[2]]);
    assert(seq![ms[1], ms[2]].drop_first() =~= seq![ms[2]]);
    assert(obj_lookup(ms, key_session_id()) == Some(Json::Str(m.session_id@)));
    assert(obj_lookup(seq![ms[1], ms[2]], key_local_timestamp()) == Some(
        Json::Int(m.local_timestamp as int),
    ));
    assert(obj_lookup(ms, key_local_timestamp()) == Some(Json::Int(m.local_timestamp as int)));
    assert(obj_lookup(seq![ms[2]], key_payload()) == Some(payload_jmodel(m.payload)));
    assert(obj_lookup(seq![ms[1], ms[2]], key_payload()) == Some(payload_jmodel(m.payload)));
    assert(obj_lookup(ms, key_payload()) == Some(payload_jmodel(m.payload)));
}

/// The four payload discriminators are pairwise distinct.
proof fn lemma_payload_tags_distinct()
    ensures
        tag_instruction() != tag_event(),
        tag_instruction() != tag_response(),
        tag_instruction() != tag_close(),
        tag_event() != tag_response(),
        tag_event() != tag_close(),
        tag_response() != tag_close(),
{
    assert(tag_instruction().len() == 11);
    assert(tag_event().len() == 5);
    assert(tag_response().len() == 8);
    assert(tag_close().len() == 5);
    assert(tag_event()[0] == 101);
    assert(tag_close()[0] == 99);
}

/// Law: a known payload, written to its wire form and read back, is
/// recovered field for field.
pub proof fn lemma_payload_round_trip(p: MessagePayload, q: MessagePayload)
    requires
        known_payload(p),
        payload_decodes_to(payload_jmodel(p), q),
    ensures
        payload_view_eq(q, p),
{
    lemma_payload_tags_distinct();
    assert(key_type().len() == 4);
    assert(key_content().len() == 7);
    match p {
        MessagePayload::Instruction { content } => {
            let ms = seq![
                (key_type(), Json::Str(tag_instruction())),
                (key_content(), instr_jmodel(content)),
            ];
            assert(ms[0] == (key_type(), Json::Str(tag_instruction())));
            assert(ms[1] == (key_content(), instr_jmodel(content)));
            assert(obj_lookup(ms, key_type()) == Some(Json::Str(tag_instruction())));
            assert(ms.drop_first() =~= seq![ms[1]]);
            assert(obj_lookup(seq![ms[1]], key_content()) == Some(instr_jmodel(content)));
            assert(obj_lookup(ms, key_content()) == Some(instr_jmodel(content)));
            let q2 = q->Instruction_content;
            crate::instructions::lemma_instr_round_trip(content, q2);
        },
        MessagePayload::Event { content } => {
            let ms = seq![(key_type(), Json::Str(tag_event())), (key_content(), jview(content))];
            assert(ms[0] == (key_type(), Json::Str(tag_event())));
            assert(ms[1] == (key_content(), jview(content)));
            assert(obj_lookup(ms, key_type()) == Some(Json::Str(tag_event())));
            assert(ms.drop_first() =~= seq![ms[1]]);
            assert(obj_lookup(seq![ms[1]], key_content()) == Some(jview(content)));
            assert(obj_lookup(ms, key_content()) == Some(jview(content)));
        },
        MessagePayload::Response { content } => {
            let ms = seq![(key_type(), Json::Str(tag_response())), (key_content(), jview(content))];
            assert(ms[0] == (key_type(), Json::Str(tag_response())));
            assert(ms[1] == (key_content(), jview(content)));
            assert(obj_lookup(ms, key_type()) == Some(Json::Str(tag_response())));
            assert(ms.drop_first() =~= seq![ms[1]]);
            assert(obj_lookup(seq![ms[1]], key_content()) == Some(jview(content)));
            assert(obj_lookup(ms, key_content()) == Some(jview(content)));
        },
        MessagePayload::Close => {
            let ms = seq![(key_type(), Json::Str(tag_close()))];
            assert(ms[0] == (key_type(), Json::Str(tag_close())));
            assert(obj_lookup(ms, key_type()) == Some(Json::Str(tag_close())));
        },
        MessagePayload::Unknown(_) => {},
    }
}

/// Law: the canonical text of a well-formed message parses back to exactly
/// the message's own JSON, and that JSON reads as a message.
pub proof fn lemma_message_text_parses(m: Message)
    requires
        wf_message(m),
    ensures
        wf_json(message_jmodel(m)),
        spec_parse_json(json_text(message_jmodel(m)), 0) == Some(
            (message_jmodel(m), json_text(message_jmodel(m)).len() as int),
        ),
        message_decodable(message_jmodel(m)),
{
    lemma_wf_message_jmodel(m);
    crate::json::lemma_parse_full(message_jmodel(m), json_text(message_jmodel(m)));
    lemma_jmodel_lookups(m);
}

/// Law: a well-formed message of known payload kind, written and read back,
/// is recovered field for field: the round trip of the wire format.
pub proof fn lemma_message_round_trip(m: Message, m2: Message)
    requires
        wf_message(m),
        known_payload(m.payload),
        message_decodes_to(message_jmodel(m), m2),
    ensures
        m2.session_id@ == m.session_id@,
        m2.local_timestamp == m.local_timestamp,
        payload_view_eq(m2.payload, m.payload),
{
    lemma_jmodel_lookups(m);
    lemma_payload_round_trip(m.payload, m2.payload);
}


/// Law: an unrecognised payload survives the round trip verbatim — what a
/// read message carries as `Unknown` is exactly the payload value of the
/// JSON it was read from, so writing the message re-emits that JSON.
pub proof fn lemma_unknown_payload_preserved(g: Json, m: Message)
    requires
        message_decodes_to(g, m),
        m.payload is Unknown,
    ensures
        g matches Json::Obj(ms) && obj_lookup(ms, key_payload()) == Some(
            payload_jmodel(m.payload),
        ),
{
}

} // verus!
