use vstd::prelude::*;

use crate::errors::RmcsError;
use crate::events::{Event, event_route};
use crate::instructions::{Instruction, content_model_of, expects_reply, instr_jmodel, known_instr};
use crate::json::{Json, JsonVal, bytes_copy, jview, spec_parse_json};
use crate::message::{
    Message, MessagePayload, decode_message, message_decodable, message_decodes_to,
};
use crate::trusted::{fresh_uuid, is_uuid_text};

verus! {

// ---------------------------------------------------------------------------
// One agent link's session multiplexer: the registry of live sessions and
// the dispatch of inbound frames. The running tasks live with the task
// runtime in the surrounding application; each returned effect names the one
// step the application must take on them, so every decision is checked here.
// ---------------------------------------------------------------------------

/// What kind of session an entry stands for.
#[derive(Debug, Clone, Copy, PartialEq, Eq, Structural)]
pub enum SessionKind {
    /// An agent-opened stream (the heartbeat).
    EventStream,
    /// A server-opened session that waits for the agent's one reply.
    AwaitingReply,
    /// A server-opened session that is done once its message is queued.
    FireAndForget,
}

pub struct SessionEntry {
    pub session_id: Vec<u8>,
    pub kind: SessionKind,
}

/// The per-connection map from live session id to its kind. Keys unique.
pub struct SessionRegistry {
    pub entries: Vec<SessionEntry>,
}

/// The kind under a session id, first match.
pub open spec fn reg_lookup(s: Seq<SessionEntry>, sid: Seq<u8>) -> Option<SessionKind>
    decreases s,
{
    if s.len() == 0 {
        None
    } else if s[0].session_id@ == sid {
        Some(s[0].kind)
    } else {
        reg_lookup(s.drop_first(), sid)
    }
}

/// No entry under the id means no match anywhere, and the other way round.
proof fn lemma_reg_lookup_absent(s: Seq<SessionEntry>, sid: Seq<u8>)
    requires
        forall|i: int| 0 <= i < s.len() ==> s[i].session_id@ != sid,
    ensures
        reg_lookup(s, sid) is None,
    decreases s,
{
    if s.len() > 0 {
        lemma_reg_lookup_absent(s.drop_first(), sid);
    }
}

proof fn lemma_reg_lookup_none_all(s: Seq<SessionEntry>, sid: Seq<u8>)
    requires
        reg_lookup(s, sid) is None,
    ensures
        forall|i: int| 0 <= i < s.len() ==> s[i].session_id@ != sid,
    decreases s,
{
    if s.len() > 0 {
        lemma_reg_lookup_none_all(s.drop_first(), sid);
        assert forall|i: int| 0 <= i < s.len() implies s[i].session_id@ != sid by {
            if i > 0 {
                assert(s.drop_first()[i - 1] == s[i]);
            }
        }
    }
}

/// A first match settles the lookup.
proof fn lemma_reg_lookup_at(s: Seq<SessionEntry>, sid: Seq<u8>, i: int)
    requires
        0 <= i < s.len(),
        s[i].session_id@ == sid,
        forall|j: int| 0 <= j < i ==> s[j].session_id@ != sid,
    ensures
        reg_lookup(s, sid) == Some(s[i].kind),
    decreases i,
{
    if i > 0 {
        lemma_reg_lookup_at(s.drop_first(), sid, i - 1);
    }
}

/// Appending an entry adds exactly its key, where that key was absent.
proof fn lemma_reg_lookup_push(s: Seq<SessionEntry>, e: SessionEntry, k: Seq<u8>)
    ensures
        reg_lookup(s.push(e), k) == (if reg_lookup(s, k) is Some {
            reg_lookup(s, k)
        } else if k == e.session_id@ {
            Some(e.kind)
        } else {
            None
        }),
    decreases s,
{
    if s.len() == 0 {
        assert(s.push(e).drop_first() =~= Seq::<SessionEntry>::empty());
        assert(s.push(e)[0] == e);
    } else {
        assert(s.push(e)[0] == s[0]);
        assert(s.push(e).drop_first() =~= s.drop_first().push(e));
        lemma_reg_lookup_push(s.drop_first(), e, k);
    }
}

/// Replacing the one entry under a key changes exactly that key.
proof fn lemma_reg_lookup_update(s: Seq<SessionEntry>, i: int, e: SessionEntry, k: Seq<u8>)
    requires
        0 <= i < s.len(),
        s[i].session_id@ == e.session_id@,
        forall|j: int| 0 <= j < s.len() && j != i ==> s[j].session_id@ != e.session_id@,
    ensures
        reg_lookup(s.update(i, e), k) == (if k == e.session_id@ {
            Some(e.kind)
        } else {
            reg_lookup(s, k)
        }),
    decreases i,
{
    if i == 0 {
        assert(s.update(0, e)[0] == e);
        assert(s.update(0, e).drop_first() =~= s.drop_first());
    } else {
        assert(s.update(i, e)[0] == s[0]);
        assert(s.update(i, e).drop_first() =~= s.drop_first().update(i - 1, e));
        assert forall|j: int|
            0 <= j < s.drop_first().len() && j != i - 1 implies (#[trigger] s.drop_first()[
                j
            ]).session_id@ != e.session_id@ by {
            assert(s.drop_first()[j] == s[j + 1]);
        }
        lemma_reg_lookup_update(s.drop_first(), i - 1, e, k);
    }
}

/// Removing the one entry under a key removes exactly that key.
proof fn lemma_reg_lookup_remove(s: Seq<SessionEntry>, i: int, k: Seq<u8>)
    requires
        0 <= i < s.len(),
        forall|j: int| 0 <= j < s.len() && j != i ==> s[j].session_id@ != s[i].session_id@,
    ensures
        reg_lookup(s.remove(i), k) == (if k == s[i].session_id@ {
            None
        } else {
            reg_lookup(s, k)
        }),
    decreases i,
{
    if i == 0 {
        assert(s.remove(0) =~= s.drop_first());
        if k == s[0].session_id@ {
            assert forall|j: int|
                0 <= j < s.drop_first().len() implies (#[trigger] s.drop_first()[j]).session_id@
                != k by {
                assert(s.drop_first()[j] == s[j + 1]);
            }
            lemma_reg_lookup_absent(s.drop_first(), k);
        }
    } else {
        assert(s.remove(i)[0] == s[0]);
        assert(s.remove(i).drop_first() =~= s.drop_first().remove(i - 1));
        assert forall|j: int|
            0 <= j < s.drop_first().len() && j != i - 1 implies (#[trigger] s.drop_first()[
                j
            ]).session_id@ != s.drop_first()[i - 1].session_id@ by {
            assert(s.drop_first()[j] == s[j + 1]);
            assert(s.drop_first()[i - 1] == s[i]);
        }
        lemma_reg_lookup_remove(s.drop_first(), i - 1, k);
    }
}

impl SessionRegistry {
    /// Keys unique: at most one entry per session id.
    pub open spec fn wf(&self) -> bool {
        forall|i: int, j: int|
            0 <= i < j < self.entries@.len() ==> self.entries@[i].session_id@
                != self.entries@[j].session_id@
    }

    pub open spec fn spec_has(&self, sid: Seq<u8>) -> bool {
        reg_lookup(self.entries@, sid) is Some
    }

    pub fn new() -> (r: SessionRegistry)
        ensures
            r.wf(),
            forall|k: Seq<u8>| reg_lookup(r.entries@, k) is None,
    {
        let r = SessionRegistry { entries: Vec::new() };
        proof {
            assert forall|k: Seq<u8>| reg_lookup(r.entries@, k) is None by {
                assert(r.entries@.len() == 0);
            }
        }
        r
    }

    /// Where the entry under the id stands, if anywhere.
    fn find(&self, sid: &Vec<u8>) -> (r: Option<usize>)
        ensures
            match r {
                Some(i) => i < self.entries@.len() && self.entries@[i as int].session_id@ == sid@
                    && (forall|j: int| 0 <= j < i ==> self.entries@[j].session_id@ != sid@)
                    && reg_lookup(self.entries@, sid@) == Some(self.entries@[i as int].kind),
                None => reg_lookup(self.entries@, sid@) is None,
            },
    {
        let mut k: usize = 0;
        while k < self.entries.len()
            invariant
                k <= self.entries@.len(),
                forall|j: int| 0 <= j < k ==> self.entries@[j].session_id@ != sid@,
            decreases self.entries@.len() - k,
        {
            if crate::json::bytes_eq(&self.entries[k].session_id, sid) {
                proof {
                    lemma_reg_lookup_at(self.entries@, sid@, k as int);
                }
                return Some(k);
            }
            k += 1;
        }
        proof {
            lemma_reg_lookup_absent(self.entries@, sid@);
        }
        None
    }

    pub fn contains(&self, sid: &Vec<u8>) -> (r: bool)
        ensures
            r == self.spec_has(sid@),
    {
        match self.find(sid) {
            Some(_) => true,
            None => false,
        }
    }

    pub fn get_kind(&self, sid: &Vec<u8>) -> (r: Option<SessionKind>)
        ensures
            r == reg_lookup(self.entries@, sid@),
    {
        match self.find(sid) {
            Some(i) => Some(self.entries[i].kind),
            None => None,
        }
    }

    /// Puts the session in under its id; the latest entry wins.
    pub fn insert(&mut self, sid: Vec<u8>, kind: SessionKind) -> (replaced: bool)
        requires
            old(self).wf(),
        ensures
            final(self).wf(),
            reg_lookup(final(self).entries@, sid@) == Some(kind),
            forall|k: Seq<u8>|
                k != sid@ ==> reg_lookup(final(self).entries@, k) == reg_lookup(
                    old(self).entries@,
                    k,
                ),
            replaced == old(self).spec_has(sid@),
    {
        let e = SessionEntry { session_id: sid, kind };
        match self.find(&e.session_id) {
            Some(i) => {
                proof {
                    assert forall|j: int|
                        0 <= j < self.entries@.len() && j != i implies (#[trigger] self.entries@[
                            j
                        ]).session_id@ != e.session_id@ by {
                        if j > i as int {
                            assert(self.entries@[i as int].session_id@ == e.session_id@);
                        }
                    }
                    lemma_reg_lookup_update(self.entries@, i as int, e, e.session_id@);
                    assert forall|k: Seq<u8>|
                        k != e.session_id@ implies reg_lookup(self.entries@.update(i as int, e), k)
                        == reg_lookup(self.entries@, k) by {
                        lemma_reg_lookup_update(self.entries@, i as int, e, k);
                    }
                }
                let ghost pre = self.entries@;
                self.entries.set(i, e);
                proof {
                    assert forall|a: int, b: int|
                        0 <= a < b < self.entries@.len() implies self.entries@[a].session_id@
                        != self.entries@[b].session_id@ by {
                        assert(pre[a].session_id@ != pre[b].session_id@);
                    }
                }
                true
            },
            None => {
                proof {
                    lemma_reg_lookup_none_all(self.entries@, e.session_id@);
                    lemma_reg_lookup_push(self.entries@, e, e.session_id@);
                    assert forall|k: Seq<u8>|
                        k != e.session_id@ implies reg_lookup(self.entries@.push(e), k)
                        == reg_lookup(self.entries@, k) by {
                        lemma_reg_lookup_push(self.entries@, e, k);
                    }
                }
                let ghost pre = self.entries@;
                self.entries.push(e);
                proof {
                    assert forall|a: int, b: int|
                        0 <= a < b < self.entries@.len() implies self.entries@[a].session_id@
                        != self.entries@[b].session_id@ by {
                        if b < pre.len() {
                            assert(pre[a].session_id@ != pre[b].session_id@);
                        } else {
                            assert(self.entries@[b] == e);
                            assert(pre[a].session_id@ != e.session_id@);
                        }
                    }
                }
                false
            },
        }
    }

    /// Takes the session out from under its id, if it is there.
    pub fn remove(&mut self, sid: &Vec<u8>) -> (r: Option<SessionKind>)
        requires
            old(self).wf(),
        ensures
            final(self).wf(),
            reg_lookup(final(self).entries@, sid@) is None,
            forall|k: Seq<u8>|
                k != sid@ ==> reg_lookup(final(self).entries@, k) == reg_lookup(
                    old(self).entries@,
                    k,
                ),
            r == reg_lookup(old(self).entries@, sid@),
    {
        match self.find(sid) {
            Some(i) => {
                let ghost pre = self.entries@;
                proof {
                    assert forall|j: int|
                        0 <= j < pre.len() && j != i implies (#[trigger] pre[j]).session_id@
                        != pre[i as int].session_id@ by {
                        if j > i as int {
                            assert(pre[i as int].session_id@ == sid@);
                        }
                    }
                    lemma_reg_lookup_remove(pre, i as int, sid@);
                    assert forall|k: Seq<u8>|
                        k != sid@ implies reg_lookup(pre.remove(i as int), k) == reg_lookup(pre, k)
                        by {
                        lemma_reg_lookup_remove(pre, i as int, k);
                    }
                }
                let e = self.entries.remove(i);
                proof {
                    assert forall|a: int, b: int|
                        0 <= a < b < self.entries@.len() implies self.entries@[a].session_id@
                        != self.entries@[b].session_id@ by {
                        let a0 = if a < i as int {
                            a
                        } else {
                            a + 1
                        };
                        let b0 = if b < i as int {
                            b
                        } else {
                            b + 1
                        };
                        assert(self.entries@[a] == pre[a0]);
                        assert(self.entries@[b] == pre[b0]);
                        assert(pre[a0].session_id@ != pre[b0].session_id@);
                    }
                }
                Some(e.kind)
            },
            None => None,
        }
    }
}

// ---------------------------------------------------------------------------
// Effects: the one step the surrounding application must take per decision
// ---------------------------------------------------------------------------

#[derive(Debug, PartialEq, Eq)]
pub enum Effect {
    /// Agents must not send instructions: log the error, drop the frame.
    LogIllegalInstruction,
    /// Spawn the event session's task.
    StartEventSession { session_id: Vec<u8>, event: Event },
    /// The session replaced under this id: stop its old task.
    AbortReplaced { session_id: Vec<u8> },
    /// Feed the content to the session's running task.
    Resume { session_id: Vec<u8>, content: JsonVal },
    /// A late response for no known session: log, drop.
    LogUnknownSessionResponse { session_id: Vec<u8> },
    /// Fire the session's close signal, then stop its task.
    CloseSession { session_id: Vec<u8> },
    /// A close for no known session: log, ignore.
    LogUnknownSessionClose { session_id: Vec<u8> },
    /// The event was rejected; no session was opened.
    RejectEvent { session_id: Vec<u8>, reason: RmcsError },
    /// An unrecognised payload: log, ignore.
    LogUnknownPayload,
}

pub struct Connection {
    pub robot_id: Vec<u8>,
    pub sessions: SessionRegistry,
}

pub open spec fn frame_all(pre: SessionRegistry, post: SessionRegistry) -> bool {
    forall|k: Seq<u8>| reg_lookup(post.entries@, k) == reg_lookup(pre.entries@, k)
}

pub open spec fn frame_except(pre: SessionRegistry, post: SessionRegistry, sid: Seq<u8>) -> bool {
    forall|k: Seq<u8>|
        k != sid ==> reg_lookup(post.entries@, k) == reg_lookup(pre.entries@, k)
}

/// The whole dispatch table of one inbound frame, §the payload deciding:
/// an inbound instruction is illegal and changes nothing; an accepted event
/// opens (or replaces) that session and nothing else; a response resumes a
/// known session and changes no entry; a close removes exactly its session;
/// anything unknown changes nothing. A response or close for an unknown
/// session leaves every session untouched and the link alive.
pub open spec fn process_post(
    pre: Connection,
    post: Connection,
    sid: Seq<u8>,
    p: MessagePayload,
    effects: Seq<Effect>,
) -> bool {
    &&& post.robot_id == pre.robot_id
    &&& post.sessions.wf()
    &&& match p {
        MessagePayload::Instruction { .. } => {
            &&& frame_all(pre.sessions, post.sessions)
            &&& effects.len() == 1
            &&& effects[0] is LogIllegalInstruction
        },
        MessagePayload::Event { content } => {
            match event_route(jview(content)) {
                Ok(Event::Heartbeat) => {
                    &&& reg_lookup(post.sessions.entries@, sid) == Some(SessionKind::EventStream)
                    &&& frame_except(pre.sessions, post.sessions, sid)
                    &&& if pre.sessions.spec_has(sid) {
                        &&& effects.len() == 2
                        &&& (effects[0] matches Effect::AbortReplaced { session_id }
                            && session_id@ == sid)
                        &&& (effects[1] matches Effect::StartEventSession { session_id, event }
                            && session_id@ == sid && event == Event::Heartbeat)
                    } else {
                        &&& effects.len() == 1
                        &&& (effects[0] matches Effect::StartEventSession { session_id, event }
                            && session_id@ == sid && event == Event::Heartbeat)
                    }
                },
                Ok(Event::Unknown) => false,
                Err(e) => {
                    &&& frame_all(pre.sessions, post.sessions)
                    &&& effects.len() == 1
                    &&& (effects[0] matches Effect::RejectEvent { session_id, reason }
                        && session_id@ == sid && reason == e)
                },
            }
        },
        MessagePayload::Response { content } => {
            if pre.sessions.spec_has(sid) {
                &&& frame_all(pre.sessions, post.sessions)
                &&& effects.len() == 1
                &&& (effects[0] matches Effect::Resume { session_id, content: c } && session_id@
                    == sid && c == content)
            } else {
                &&& frame_all(pre.sessions, post.sessions)
                &&& effects.len() == 1
                &&& (effects[0] matches Effect::LogUnknownSessionResponse { session_id }
                    && session_id@ == sid)
            }
        },
        MessagePayload::Close => {
            if pre.sessions.spec_has(sid) {
                &&& reg_lookup(post.sessions.entries@, sid) is None
                &&& frame_except(pre.sessions, post.sessions, sid)
                &&& effects.len() == 1
                &&& (effects[0] matches Effect::CloseSession { session_id } && session_id@ == sid)
            } else {
                &&& frame_all(pre.sessions, post.sessions)
                &&& effects.len() == 1
                &&& (effects[0] matches Effect::LogUnknownSessionClose { session_id }
                    && session_id@ == sid)
            }
        },
        MessagePayload::Unknown(_) => {
            &&& frame_all(pre.sessions, post.sessions)
            &&& effects.len() == 1
            &&& effects[0] is LogUnknownPayload
        },
    }
}

impl Connection {
    pub fn new(robot_id: Vec<u8>) -> (c: Connection)
        ensures
            c.robot_id == robot_id,
            c.sessions.wf(),
            forall|k: Seq<u8>| reg_lookup(c.sessions.entries@, k) is None,
    {
        Connection { robot_id, sessions: SessionRegistry::new() }
    }

    /// Dispatches one decoded frame, as `process_post` says in full.
    pub fn process_session(&mut self, session_id: Vec<u8>, payload: MessagePayload) -> (effects:
        Vec<Effect>)
        requires
            old(self).sessions.wf(),
        ensures
            process_post(*old(self), *final(self), session_id@, payload, effects@),
    {
        match payload {
            MessagePayload::Instruction { content: _ } => {
                let effects: Vec<Effect> = vec![Effect::LogIllegalInstruction];
                effects
            },
            MessagePayload::Event { content } => {
                match crate::events::classify_event(&content) {
                    Ok(Event::Heartbeat) => {
                        let sid2 = bytes_copy(&session_id);
                        let replaced = self.sessions.insert(session_id, SessionKind::EventStream);
                        if replaced {
                            let sid3 = bytes_copy(&sid2);
                            let effects: Vec<Effect> = vec![
                                Effect::AbortReplaced { session_id: sid3 },
                                Effect::StartEventSession {
                                    session_id: sid2,
                                    event: Event::Heartbeat,
                                },
                            ];
                            effects
                        } else {
                            let effects: Vec<Effect> = vec![
                                Effect::StartEventSession {
                                    session_id: sid2,
                                    event: Event::Heartbeat,
                                },
                            ];
                            effects
                        }
                    },
                    Ok(Event::Unknown) => {
                        proof {
                            assert(false);
                        }
                        Vec::new()
                    },
                    Err(e) => {
                        let effects: Vec<Effect> = vec![
                            Effect::RejectEvent { session_id, reason: e },
                        ];
                        effects
                    },
                }
            },
            MessagePayload::Response { content } => {
                if self.sessions.contains(&session_id) {
                    let effects: Vec<Effect> = vec![Effect::Resume { session_id, content }];
                    effects
                } else {
                    let effects: Vec<Effect> = vec![
                        Effect::LogUnknownSessionResponse { session_id },
                    ];
                    effects
                }
            },
            MessagePayload::Close => {
                match self.sessions.remove(&session_id) {
                    Some(_) => {
                        let effects: Vec<Effect> = vec![Effect::CloseSession { session_id }];
                        effects
                    },
                    None => {
                        let effects: Vec<Effect> = vec![
                            Effect::LogUnknownSessionClose { session_id },
                        ];
                        effects
                    },
                }
            },
            MessagePayload::Unknown(_) => {
                let effects: Vec<Effect> = vec![Effect::LogUnknownPayload];
                effects
            },
        }
    }

    /// Takes one raw frame off the link: a frame that does not decode is
    /// dropped with every session untouched — a malformed message never
    /// kills the link — and a decoded one is dispatched as `process_post`
    /// says. A frame decodes as the json module reads it: one JSON value,
    /// whitespace and string escapes allowed, numbers as 64-bit integers
    /// only — a frame with a fraction or an exponent in a number is dropped
    /// as unreadable.
    pub fn recv(&mut self, raw: &Vec<u8>) -> (r: Result<Vec<Effect>, RmcsError>)
        requires
            old(self).sessions.wf(),
        ensures
            match r {
                Ok(effects) => (spec_parse_json(raw@, 0) matches Some((g, j))
                    && crate::json::ws_only_from(raw@, j) && message_decodable(g)) && (exists|
                    m: Message,
                |
                    #[trigger] message_decodes_to(spec_parse_json(raw@, 0)->Some_0.0, m)
                        && process_post(*old(self), *final(self), m.session_id@, m.payload,
                    effects@)),
                Err(e) => *final(self) == *old(self) && e == RmcsError::ParseError && !(
                spec_parse_json(raw@, 0) matches Some((g, j)) && crate::json::ws_only_from(
                    raw@,
                    j,
                ) && message_decodable(g)),
            },
    {
        match decode_message(raw) {
            Ok(m) => {
                let ghost gm = m;
                let Message { session_id, local_timestamp: _, payload } = m;
                let effects = self.process_session(session_id, payload);
                proof {
                    assert(message_decodes_to(spec_parse_json(raw@, 0)->Some_0.0, gm)
                        && process_post(*old(self), *self, gm.session_id@, gm.payload, effects@));
                }
                Ok(effects)
            },
            Err(e) => Err(e),
        }
    }

    /// Opens a server-initiated session for an instruction: registers a
    /// fresh session id and yields the message to write to the link,
    /// together with whether the session waits for the agent's reply.
    pub fn prepare_instruction(&mut self, instruction: Instruction) -> (r: (Message, bool))
        requires
            old(self).sessions.wf(),
        ensures
            ({
                let (msg, wants) = r;
                &&& final(self).sessions.wf()
                &&& final(self).robot_id == old(self).robot_id
                &&& is_uuid_text(msg.session_id@)
                &&& (msg.payload matches MessagePayload::Instruction { content } && instr_jmodel(
                    content,
                ) == content_model_of(instruction) && known_instr(content))
                &&& wants == expects_reply(instruction)
                &&& reg_lookup(final(self).sessions.entries@, msg.session_id@) == Some(
                    if wants {
                        SessionKind::AwaitingReply
                    } else {
                        SessionKind::FireAndForget
                    },
                )
                &&& frame_except(old(self).sessions, final(self).sessions, msg.session_id@)
            }),
    {
        let sid = fresh_uuid();
        let wants = instruction.wants_reply();
        let kind = if wants {
            SessionKind::AwaitingReply
        } else {
            SessionKind::FireAndForget
        };
        let _ = self.sessions.insert(bytes_copy(&sid), kind);
        let content = instruction.content();
        let msg = Message::new_instruction_with_uuid(sid, content);
        (msg, wants)
    }


    /// An explicit abort of one session: its entry leaves the registry and
    /// every other session stays. Aborting one session never tears the link
    /// down.
    pub fn abort_session(&mut self, session_id: &Vec<u8>) -> (had: bool)
        requires
            old(self).sessions.wf(),
        ensures
            final(self).sessions.wf(),
            final(self).robot_id == old(self).robot_id,
            reg_lookup(final(self).sessions.entries@, session_id@) is None,
            frame_except(old(self).sessions, final(self).sessions, session_id@),
            had == old(self).sessions.spec_has(session_id@),
    {
        match self.sessions.remove(session_id) {
            Some(_) => true,
            None => false,
        }
    }

    /// The completion hook: a session that ran to completion takes its own
    /// entry out; every other session stays.
    pub fn complete_session(&mut self, session_id: &Vec<u8>)
        requires
            old(self).sessions.wf(),
        ensures
            final(self).sessions.wf(),
            final(self).robot_id == old(self).robot_id,
            reg_lookup(final(self).sessions.entries@, session_id@) is None,
            frame_except(old(self).sessions, final(self).sessions, session_id@),
    {
        let _ = self.sessions.remove(session_id);
    }
}

// ---------------------------------------------------------------------------
// What the operator's await comes to
// ---------------------------------------------------------------------------

/// How the wait for a reply ended: the agent answered, or the link (and with
/// it the reply channel) went away first.
pub enum AwaitOutcome {
    Received(JsonVal),
    ChannelDropped,
}

/// Resolves the operator's wait: a received reply is handed through
/// unchanged; a dropped channel — the link was torn down before the agent
/// replied — resolves as a closed-channel error, never a hang.
pub fn complete_instruction(outcome: AwaitOutcome) -> (r: Result<JsonVal, RmcsError>)
    ensures
        (outcome matches AwaitOutcome::Received(v) ==> r matches Ok(w) && w == v),
        outcome is ChannelDropped ==> r == Err::<JsonVal, RmcsError>(RmcsError::ChannelClosed),
{
    match outcome {
        AwaitOutcome::Received(v) => Ok(v),
        AwaitOutcome::ChannelDropped => Err(RmcsError::ChannelClosed),
    }
}

/// What a just-opened instruction session resolves at once: a fire-and-forget
/// session answers the operator immediately with the empty object; a
/// reply-bearing session resolves nothing yet.
pub fn immediate_resolution(wants_reply: bool) -> (r: Option<JsonVal>)
    ensures
        !wants_reply ==> (r matches Some(v) && jview(v) == Json::Obj(Seq::empty())),
        wants_reply ==> r is None,
{
    if wants_reply {
        None
    } else {
        let members: Vec<(Vec<u8>, JsonVal)> = Vec::new();
        proof {
            assert(crate::json::jview_members(members@) =~= Seq::<(Seq<u8>, Json)>::empty());
        }
        Some(JsonVal::Obj(members))
    }
}

} // verus!
