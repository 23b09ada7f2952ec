use vstd::prelude::*;

use crate::action::Action;
use crate::json::{
    Json, JsonVal, bytes_copy, bytes_eq, jview, jview_members, lemma_jview_members_one,
    lemma_jview_members_two, obj_find, obj_lookup, wf_json,
};
use crate::wire::{
    key_instruction, key_instruction_bytes, key_message, key_message_bytes, key_robot_id,
    key_robot_id_bytes, key_robot_name, key_robot_name_bytes, tag_fetch_network,
    tag_fetch_network_bytes, tag_sync_robot_id, tag_sync_robot_id_bytes, tag_sync_robot_name,
    tag_sync_robot_name_bytes, tag_update_metadata, tag_update_metadata_bytes,
};

verus! {

// ---------------------------------------------------------------------------
// Server-to-agent instructions and their wire content. The content is a
// tagged object under the `instruction` discriminator; unrecognised
// discriminators are carried whole, never dropped.
// ---------------------------------------------------------------------------

#[derive(Debug, PartialEq, Eq)]
pub struct SyncRobotIdMessage {
    pub robot_id: Vec<u8>,
}

#[derive(Debug, PartialEq, Eq)]
pub struct SyncRobotNameMessage {
    pub robot_name: Vec<u8>,
}

/// The shape of an agent reply that carries an id back on a sync session.
/// The once-shot sync sessions consume nothing inbound; the shape names
/// what an agent would send there.
pub struct SyncRobotIdRequest {
    pub robot_id: Vec<u8>,
}

/// The shape of an agent reply that carries a name back on a sync session.
pub struct SyncRobotNameRequest {
    pub robot_name: Vec<u8>,
}

/// The content of an instruction payload, as it stands on the wire.
#[derive(Debug, PartialEq, Eq)]
pub enum InstructionContent {
    SyncRobotId { message: SyncRobotIdMessage },
    SyncRobotName { message: SyncRobotNameMessage },
    FetchNetwork {},
    UpdateMetadata {},
    Unknown(JsonVal),
}

/// The JSON a content value stands for.
pub open spec fn instr_jmodel(c: InstructionContent) -> Json {
    match c {
        InstructionContent::SyncRobotId { message } => Json::Obj(
            seq![
                (key_instruction(), Json::Str(tag_sync_robot_id())),
                (
                    key_message(),
                    Json::Obj(seq![(key_robot_id(), Json::Str(message.robot_id@))]),
                ),
            ],
        ),
        InstructionContent::SyncRobotName { message } => Json::Obj(
            seq![
                (key_instruction(), Json::Str(tag_sync_robot_name())),
                (
                    key_message(),
                    Json::Obj(seq![(key_robot_name(), Json::Str(message.robot_name@))]),
                ),
            ],
        ),
        InstructionContent::FetchNetwork {  } => Json::Obj(
            seq![(key_instruction(), Json::Str(tag_fetch_network()))],
        ),
        InstructionContent::UpdateMetadata {  } => Json::Obj(
            seq![(key_instruction(), Json::Str(tag_update_metadata()))],
        ),
        InstructionContent::Unknown(v) => jview(v),
    }
}

pub open spec fn wf_instr(c: InstructionContent) -> bool {
    match c {
        InstructionContent::Unknown(v) => wf_json(jview(v)),
        _ => true,
    }
}

pub open spec fn known_instr(c: InstructionContent) -> bool {
    !(c is Unknown)
}

/// The discriminator of instruction content, where there is one.
pub open spec fn instr_tag_of(g: Json) -> Option<Json> {
    match g {
        Json::Obj(ms) => obj_lookup(ms, key_instruction()),
        _ => None,
    }
}

/// A string field of an object, where there is one.
pub open spec fn str_field(g: Json, key: Seq<u8>) -> Option<Seq<u8>> {
    match g {
        Json::Obj(ms) => match obj_lookup(ms, key) {
            Some(Json::Str(s)) => Some(s),
            _ => None,
        },
        _ => None,
    }
}

/// The string under `message.<key>`, where the whole path exists.
pub open spec fn message_str_field(g: Json, key: Seq<u8>) -> Option<Seq<u8>> {
    match g {
        Json::Obj(ms) => match obj_lookup(ms, key_message()) {
            Some(inner) => str_field(inner, key),
            _ => None,
        },
        _ => None,
    }
}

/// How instruction content reads: the discriminator selects a variant; a
/// missing or ill-typed required field, or a foreign discriminator, leaves
/// the value whole as `Unknown`.
pub open spec fn instr_decodes_to(g: Json, c: InstructionContent) -> bool {
    if instr_tag_of(g) == Some(Json::Str(tag_sync_robot_id())) {
        match message_str_field(g, key_robot_id()) {
            Some(r) => c matches InstructionContent::SyncRobotId { message }
                && message.robot_id@ == r,
            None => c matches InstructionContent::Unknown(v) && jview(v) == g,
        }
    } else if instr_tag_of(g) == Some(Json::Str(tag_sync_robot_name())) {
        match message_str_field(g, key_robot_name()) {
            Some(r) => c matches InstructionContent::SyncRobotName { message }
                && message.robot_name@ == r,
            None => c matches InstructionContent::Unknown(v) && jview(v) == g,
        }
    } else if instr_tag_of(g) == Some(Json::Str(tag_fetch_network())) {
        c is FetchNetwork
    } else if instr_tag_of(g) == Some(Json::Str(tag_update_metadata())) {
        c is UpdateMetadata
    } else {
        c matches InstructionContent::Unknown(v) && jview(v) == g
    }
}

/// A string field of an object's members, read off at runtime.
pub fn get_str_field(members: &Vec<(Vec<u8>, JsonVal)>, key: &Vec<u8>) -> (r: Option<Vec<u8>>)
    ensures
        ({
            let l = obj_lookup(jview_members(members@), key@);
            match r {
                Some(b) => l == Some(Json::Str(b@)),
                None => !(l matches Some(g) && g is Str),
            }
        }),
{
    match obj_find(members, key) {
        Some(idx) => match &members[idx].1 {
            JsonVal::Str(s) => Some(bytes_copy(s)),
            _ => None,
        },
        None => None,
    }
}

/// Reads instruction content as `instr_decodes_to` says.
pub fn instr_of_json(c: JsonVal) -> (r: InstructionContent)
    ensures
        instr_decodes_to(jview(c), r),
{
    let known: Option<InstructionContent> = match &c {
        JsonVal::Obj(members) => {
            let tag: Option<Vec<u8>> = get_str_field(members, &key_instruction_bytes());
            match tag {
                Some(t) => {
                    if bytes_eq(&t, &tag_sync_robot_id_bytes()) {
                        let rid: Option<Vec<u8>> = match obj_find(members, &key_message_bytes()) {
                            Some(mi) => match &members[mi].1 {
                                JsonVal::Obj(inner) => get_str_field(inner, &key_robot_id_bytes()),
                                _ => None,
                            },
                            None => None,
                        };
                        match rid {
                            Some(robot_id) => Some(
                                InstructionContent::SyncRobotId {
                                    message: SyncRobotIdMessage { robot_id },
                                },
                            ),
                            None => None,
                        }
                    } else if bytes_eq(&t, &tag_sync_robot_name_bytes()) {
                        let rname: Option<Vec<u8>> = match obj_find(members, &key_message_bytes()) {
                            Some(mi) => match &members[mi].1 {
                                JsonVal::Obj(inner) => get_str_field(
                                    inner,
                                    &key_robot_name_bytes(),
                                ),
                                _ => None,
                            },
                            None => None,
                        };
                        match rname {
                            Some(robot_name) => Some(
                                InstructionContent::SyncRobotName {
                                    message: SyncRobotNameMessage { robot_name },
                                },
                            ),
                            None => None,
                        }
                    } else if bytes_eq(&t, &tag_fetch_network_bytes()) {
                        Some(InstructionContent::FetchNetwork {  })
                    } else if bytes_eq(&t, &tag_update_metadata_bytes()) {
                        Some(InstructionContent::UpdateMetadata {  })
                    } else {
                        None
                    }
                },
                None => None,
            }
        },
        _ => None,
    };
    match known {
        Some(k) => k,
        None => InstructionContent::Unknown(c),
    }
}

/// Writes instruction content as `instr_jmodel` says.
pub fn instr_to_json(c: InstructionContent) -> (r: JsonVal)
    ensures
        jview(r) == instr_jmodel(c),
{
    match c {
        InstructionContent::SyncRobotId { message } => {
            let mut inner: Vec<(Vec<u8>, JsonVal)> = Vec::new();
            inner.push((key_robot_id_bytes(), JsonVal::Str(message.robot_id)));
            proof {
                lemma_jview_members_one(inner@);
            }
            let mut members: Vec<(Vec<u8>, JsonVal)> = Vec::new();
            members.push(
                (key_instruction_bytes(), JsonVal::Str(tag_sync_robot_id_bytes())),
            );
            members.push((key_message_bytes(), JsonVal::Obj(inner)));
            proof {
                lemma_jview_members_two(members@);
            }
            JsonVal::Obj(members)
        },
        InstructionContent::SyncRobotName { message } => {
            let mut inner: Vec<(Vec<u8>, JsonVal)> = Vec::new();
            inner.push((key_robot_name_bytes(), JsonVal::Str(message.robot_name)));
            proof {
                lemma_jview_members_one(inner@);
            }
            let mut members: Vec<(Vec<u8>, JsonVal)> = Vec::new();
            members.push(
                (key_instruction_bytes(), JsonVal::Str(tag_sync_robot_name_bytes())),
            );
            members.push((key_message_bytes(), JsonVal::Obj(inner)));
            proof {
                lemma_jview_members_two(members@);
            }
            JsonVal::Obj(members)
        },
        InstructionContent::FetchNetwork {  } => {
            let mut members: Vec<(Vec<u8>, JsonVal)> = Vec::new();
            members.push(
                (key_instruction_bytes(), JsonVal::Str(tag_fetch_network_bytes())),
            );
            proof {
                lemma_jview_members_one(members@);
            }
            JsonVal::Obj(members)
        },
        InstructionContent::UpdateMetadata {  } => {
            let mut members: Vec<(Vec<u8>, JsonVal)> = Vec::new();
            members.push(
                (key_instruction_bytes(), JsonVal::Str(tag_update_metadata_bytes())),
            );
            proof {
                lemma_jview_members_one(members@);
            }
            JsonVal::Obj(members)
        },
        InstructionContent::Unknown(v) => v,
    }
}

// ---------------------------------------------------------------------------
// The server-side instruction union that operators issue
// ---------------------------------------------------------------------------

#[derive(Debug, PartialEq, Eq)]
pub enum Instruction {
    SyncRobotId { robot_id: Vec<u8> },
    SyncRobotName { robot_name: Vec<u8> },
    FetchNetwork {},
    UpdateMetadata {},
}

/// The wire content an instruction sends to the agent.
pub open spec fn content_model_of(i: Instruction) -> Json {
    match i {
        Instruction::SyncRobotId { robot_id } => Json::Obj(
            seq![
                (key_instruction(), Json::Str(tag_sync_robot_id())),
                (key_message(), Json::Obj(seq![(key_robot_id(), Json::Str(robot_id@))])),
            ],
        ),
        Instruction::SyncRobotName { robot_name } => Json::Obj(
            seq![
                (key_instruction(), Json::Str(tag_sync_robot_name())),
                (
                    key_message(),
                    Json::Obj(seq![(key_robot_name(), Json::Str(robot_name@))]),
                ),
            ],
        ),
        Instruction::FetchNetwork {  } => Json::Obj(
            seq![(key_instruction(), Json::Str(tag_fetch_network()))],
        ),
        Instruction::UpdateMetadata {  } => Json::Obj(
            seq![(key_instruction(), Json::Str(tag_update_metadata()))],
        ),
    }
}

/// Whether an instruction opens a session that waits for the agent's reply.
/// Only the network fetch does; the others are fire-and-forget.
pub open spec fn expects_reply(i: Instruction) -> bool {
    i is FetchNetwork
}

impl Instruction {
    /// The instruction's wire content.
    pub fn content(self) -> (c: InstructionContent)
        ensures
            instr_jmodel(c) == content_model_of(self),
            known_instr(c),
    {
        match self {
            Instruction::SyncRobotId { robot_id } => InstructionContent::SyncRobotId {
                message: SyncRobotIdMessage { robot_id },
            },
            Instruction::SyncRobotName { robot_name } => InstructionContent::SyncRobotName {
                message: SyncRobotNameMessage { robot_name },
            },
            Instruction::FetchNetwork {  } => InstructionContent::FetchNetwork {  },
            Instruction::UpdateMetadata {  } => InstructionContent::UpdateMetadata {  },
        }
    }

    /// Whether this instruction waits for the agent's reply.
    pub fn wants_reply(&self) -> (r: bool)
        ensures
            r == expects_reply(*self),
    {
        match self {
            Instruction::FetchNetwork {  } => true,
            _ => false,
        }
    }
}


// ---------------------------------------------------------------------------
// Round trip of instruction content
// ---------------------------------------------------------------------------

/// Content equal in every observable field.
pub open spec fn instr_view_eq(a: InstructionContent, b: InstructionContent) -> bool {
    match (a, b) {
        (
            InstructionContent::SyncRobotId { message: x },
            InstructionContent::SyncRobotId { message: y },
        ) => x.robot_id@ == y.robot_id@,
        (
            InstructionContent::SyncRobotName { message: x },
            InstructionContent::SyncRobotName { message: y },
        ) => x.robot_name@ == y.robot_name@,
        (InstructionContent::FetchNetwork {  }, InstructionContent::FetchNetwork {  }) => true,
        (InstructionContent::UpdateMetadata {  }, InstructionContent::UpdateMetadata {  }) => true,
        (InstructionContent::Unknown(x), InstructionContent::Unknown(y)) => jview(x) == jview(y),
        _ => false,
    }
}

/// The JSON of well-formed content is well formed.
pub proof fn lemma_wf_instr_jmodel(c: InstructionContent)
    requires
        wf_instr(c),
    ensures
        wf_json(instr_jmodel(c)),
{
    let e = Seq::<(Seq<u8>, Json)>::empty();
    assert(crate::json::wf_json_members(e));
    match c {
        InstructionContent::SyncRobotId { message } => {
            let inner = seq![(key_robot_id(), Json::Str(message.robot_id@))];
            assert(inner.drop_first() =~= e);
            assert(inner[0] == (key_robot_id(), Json::Str(message.robot_id@)));
            assert(wf_json(Json::Str(message.robot_id@)));
            assert(crate::json::wf_json_members(inner));
            let ms = seq![
                (key_instruction(), Json::Str(tag_sync_robot_id())),
                (key_message(), Json::Obj(inner)),
            ];
            assert(ms.drop_first() =~= seq![ms[1]]);
            assert(seq![ms[1]].drop_first() =~= e);
            assert(ms[1] == (key_message(), Json::Obj(inner)));
            assert(wf_json(Json::Obj(inner)));
            assert(crate::json::wf_json_members(seq![ms[1]]));
            assert(ms[0] == (key_instruction(), Json::Str(tag_sync_robot_id())));
            assert(wf_json(Json::Str(tag_sync_robot_id())));
            assert(crate::json::wf_json_members(ms));
        },
        InstructionContent::SyncRobotName { message } => {
            let inner = seq![(key_robot_name(), Json::Str(message.robot_name@))];
            assert(inner.drop_first() =~= e);
            assert(inner[0] == (key_robot_name(), Json::Str(message.robot_name@)));
            assert(wf_json(Json::Str(message.robot_name@)));
            assert(crate::json::wf_json_members(inner));
            let ms = seq![
                (key_instruction(), Json::Str(tag_sync_robot_name())),
                (key_message(), Json::Obj(inner)),
            ];
            assert(ms.drop_first() =~= seq![ms[1]]);
            assert(seq![ms[1]].drop_first() =~= e);
            assert(ms[1] == (key_message(), Json::Obj(inner)));
            assert(wf_json(Json::Obj(inner)));
            assert(crate::json::wf_json_members(seq![ms[1]]));
            assert(ms[0] == (key_instruction(), Json::Str(tag_sync_robot_name())));
            assert(wf_json(Json::Str(tag_sync_robot_name())));
            assert(crate::json::wf_json_members(ms));
        },
        InstructionContent::FetchNetwork {  } => {
            let ms = seq![(key_instruction(), Json::Str(tag_fetch_network()))];
            assert(ms.drop_first() =~= e);
            assert(ms[0] == (key_instruction(), Json::Str(tag_fetch_network())));
            assert(wf_json(Json::Str(tag_fetch_network())));
            assert(crate::json::wf_json_members(ms));
        },
        InstructionContent::UpdateMetadata {  } => {
            let ms = seq![(key_instruction(), Json::Str(tag_update_metadata()))];
            assert(ms.drop_first() =~= e);
            assert(ms[0] == (key_instruction(), Json::Str(tag_update_metadata())));
            assert(wf_json(Json::Str(tag_update_metadata())));
            assert(crate::json::wf_json_members(ms));
        },
        InstructionContent::Unknown(_) => {},
    }
}

/// The four known discriminators are pairwise distinct.
proof fn lemma_instr_tags_distinct()
    ensures
        tag_sync_robot_id() != tag_sync_robot_name(),
        tag_sync_robot_id() != tag_fetch_network(),
        tag_sync_robot_id() != tag_update_metadata(),
        tag_sync_robot_name() != tag_fetch_network(),
        tag_sync_robot_name() != tag_update_metadata(),
        tag_fetch_network() != tag_update_metadata(),
{
    assert(tag_sync_robot_id().len() == 13);
    assert(tag_sync_robot_name().len() == 15);
    assert(tag_fetch_network().len() == 13);
    assert(tag_update_metadata().len() == 15);
    assert(tag_sync_robot_id()[0] == 115);
    assert(tag_fetch_network()[0] == 102);
    assert(tag_sync_robot_name()[0] == 115);
    assert(tag_update_metadata()[0] == 117);
}

/// Law: known instruction content, written to its wire form and read back,
/// is recovered field for field.
pub proof fn lemma_instr_round_trip(c: InstructionContent, c2: InstructionContent)
    requires
        known_instr(c),
        instr_decodes_to(instr_jmodel(c), c2),
    ensures
        instr_view_eq(c2, c),
{
    lemma_instr_tags_distinct();
    assert(key_instruction().len() == 11);
    assert(key_message().len() == 7);
    match c {
        InstructionContent::SyncRobotId { message } => {
            let inner = seq![(key_robot_id(), Json::Str(message.robot_id@))];
            let ms = seq![
                (key_instruction(), Json::Str(tag_sync_robot_id())),
                (key_message(), Json::Obj(inner)),
            ];
            assert(ms[0] == (key_instruction(), Json::Str(tag_sync_robot_id())));
            assert(ms[1] == (key_message(), Json::Obj(inner)));
            assert(obj_lookup(ms, key_instruction()) == Some(Json::Str(tag_sync_robot_id())));
            assert(ms.drop_first() =~= seq![ms[1]]);
            assert(key_instruction() != key_message());
            assert(obj_lookup(seq![ms[1]], key_message()) == Some(Json::Obj(inner)));
            assert(obj_lookup(ms, key_message()) == Some(Json::Obj(inner)));
            assert(inner[0] == (key_robot_id(), Json::Str(message.robot_id@)));
            assert(obj_lookup(inner, key_robot_id()) == Some(Json::Str(message.robot_id@)));
        },
        InstructionContent::SyncRobotName { message } => {
            let inner = seq![(key_robot_name(), Json::Str(message.robot_name@))];
            let ms = seq![
                (key_instruction(), Json::Str(tag_sync_robot_name())),
                (key_message(), Json::Obj(inner)),
            ];
            assert(ms[0] == (key_instruction(), Json::Str(tag_sync_robot_name())));
            assert(ms[1] == (key_message(), Json::Obj(inner)));
            assert(obj_lookup(ms, key_instruction()) == Some(Json::Str(tag_sync_robot_name())));
            assert(ms.drop_first() =~= seq![ms[1]]);
            assert(key_instruction() != key_message());
            assert(obj_lookup(seq![ms[1]], key_message()) == Some(Json::Obj(inner)));
            assert(obj_lookup(ms, key_message()) == Some(Json::Obj(inner)));
            assert(inner[0] == (key_robot_name(), Json::Str(message.robot_name@)));
            assert(obj_lookup(inner, key_robot_name()) == Some(Json::Str(message.robot_name@)));
        },
        InstructionContent::FetchNetwork {  } => {
            let ms = seq![(key_instruction(), Json::Str(tag_fetch_network()))];
            assert(obj_lookup(ms, key_instruction()) == Some(Json::Str(tag_fetch_network())));
        },
        InstructionContent::UpdateMetadata {  } => {
            let ms = seq![(key_instruction(), Json::Str(tag_update_metadata()))];
            assert(obj_lookup(ms, key_instruction()) == Some(Json::Str(tag_update_metadata())));
        },
        InstructionContent::Unknown(_) => {},
    }
}


/// A server-opened session: the spawned action for one instruction.
pub struct InstructionSession {
    pub action: Action,
    pub expects_reply: bool,
}

/// Opens the session an instruction runs in: a live action under the
/// session id, remembering whether the agent's reply is awaited.
pub fn create_instruction_session(session_id: Vec<u8>, instruction: &Instruction) -> (r:
    InstructionSession)
    ensures
        r.action.session_id == session_id,
        r.action.live,
        !r.action.completed,
        r.expects_reply == expects_reply(*instruction),
{
    InstructionSession {
        action: Action::new(session_id),
        expects_reply: instruction.wants_reply(),
    }
}

} // verus!
