use vstd::prelude::*;

use crate::database::{
    Database, fuzz_lookup, network_lookup, register_post, rename_post, RobotIdent,
};
use crate::directory::{Directory, ids_contain};
use crate::errors::RmcsError;
use crate::instructions::Instruction;
use crate::json::{Json, JsonVal, bytes_copy, json_encode, json_text, jview, spec_parse_json};
use crate::network::{NetworkInfoItem, info_decodable, info_decodes_to, network_info_of_json};
use crate::trusted::{fresh_uuid, is_uuid_text};

verus! {

// ---------------------------------------------------------------------------
// The operator API, at its decision core: every handler's rule from plain
// inputs to plain outputs stands here with its contract. The HTTP surface
// around it routes, serialises and awaits.
// ---------------------------------------------------------------------------

/// How a failed handler answers: a short reason with the right status.
#[derive(Debug, Clone, PartialEq, Eq, Structural)]
pub enum ApiError {
    BadRequest(RmcsError),
    NotFound,
    Internal,
}

pub struct Api;

pub struct ActionApi;

pub struct IdentApi;

pub struct StatsApi;

#[derive(Debug, PartialEq, Eq)]
pub struct Version {
    pub version: Vec<u8>,
}

/// The service version text.
pub open spec fn version_text() -> Seq<u8> {
    seq![48u8, 46u8, 49u8, 46u8, 48u8]
}

impl Default for Version {
    fn default() -> (r: Version)
        ensures
            r.version@ == version_text(),
    {
        let version: Vec<u8> = vec![48u8, 46u8, 49u8, 46u8, 48u8];
        proof {
            assert(version@ =~= version_text());
        }
        Version { version }
    }
}

pub struct FetchNetworkRequest {
    pub robot_id: Vec<u8>,
}

pub struct FetchNetworkResponse {}

pub struct SetRobotIdRequest {
    pub robot_id: Vec<u8>,
    pub new_robot_id: Vec<u8>,
}

#[derive(Debug, PartialEq, Eq)]
pub struct SetRobotIdResponse {
    pub success: bool,
}

pub struct SetRobotNameRequest {
    pub robot_uuid: Vec<u8>,
    pub new_robot_name: Vec<u8>,
}

#[derive(Debug)]
pub struct SetRobotNameResponse;

pub struct Sync {
    pub robot_id: Vec<u8>,
    pub mac: Vec<u8>,
    pub name: Vec<u8>,
    pub uuid: Vec<u8>,
}

#[derive(Debug, PartialEq, Eq)]
pub struct SyncResponse {
    pub success: bool,
}

#[derive(Debug, PartialEq, Eq)]
pub struct RetrieveResponse {
    pub robot_id: Vec<u8>,
    pub mac: Vec<u8>,
    pub name: Vec<u8>,
    pub uuid: Vec<u8>,
}

pub struct WhoAmI {
    pub username: Vec<u8>,
    pub mac: Vec<u8>,
}

#[derive(Debug, PartialEq, Eq)]
pub struct WhoAmIResponse {
    pub robot_id: Vec<u8>,
    pub robot_uuid: Vec<u8>,
    pub robot_name: Vec<u8>,
}

#[derive(Debug)]
pub struct RobotNetworkStatsResponse {
    pub stats: Vec<NetworkInfoItem>,
    pub last_updated: i64,
}

/// The minted name: `robot_<username>_<mac>`.
pub open spec fn minted_name(username: Seq<u8>, mac: Seq<u8>) -> Seq<u8> {
    seq![114u8, 111u8, 98u8, 111u8, 116u8, 95u8] + username + seq![95u8] + mac
}

impl Api {
    /// Liveness.
    pub fn pong(&self) -> (r: &'static str)
        ensures
            r@ == "pong"@,
    {
        "pong"
    }

    /// The service version.
    pub fn version(&self) -> (r: Version)
        ensures
            r.version@ == version_text(),
    {
        Version::default()
    }

    /// Renaming an agent's id: issues the sync instruction exactly when the
    /// agent is online, and reports that choice.
    pub fn set_robot_id(&self, online: bool, request: &SetRobotIdRequest) -> (r: (
        SetRobotIdResponse,
        Option<Instruction>,
    ))
        ensures
            r.0.success == online,
            online ==> (r.1 matches Some(i) && (i matches Instruction::SyncRobotId { robot_id }
                && robot_id@ == request.new_robot_id@)),
            !online ==> r.1 is None,
    {
        if online {
            let instruction = Instruction::SyncRobotId {
                robot_id: bytes_copy(&request.new_robot_id),
            };
            (SetRobotIdResponse { success: true }, Some(instruction))
        } else {
            (SetRobotIdResponse { success: false }, None)
        }
    }
}

impl ActionApi {
    /// Renaming an agent, addressed by its uuid: exactly when the agent is
    /// online, the sync instruction with the new name is issued and the
    /// stored name under that uuid is updated; otherwise the request is
    /// refused as not connected and the store is untouched.
    pub fn set_robot_name(
        &self,
        db: &mut Database,
        online: bool,
        request: &SetRobotNameRequest,
    ) -> (r: Result<(SetRobotNameResponse, Instruction), ApiError>)
        requires
            old(db).wf(),
        ensures
            final(db).wf(),
            !online ==> r == Err::<(SetRobotNameResponse, Instruction), ApiError>(
                ApiError::BadRequest(RmcsError::AgentNotConnected),
            ) && *final(db) == *old(db),
            online ==> (r matches Ok((_, i)) && (i matches Instruction::SyncRobotName {
                robot_name,
            } && robot_name@ == request.new_robot_name@)) && rename_post(
                *old(db),
                *final(db),
                request.robot_uuid@,
                request.new_robot_name@,
            ),
    {
        if online {
            let _ = db.update_robot_name(&request.robot_uuid, &request.new_robot_name);
            let instruction = Instruction::SyncRobotName {
                robot_name: bytes_copy(&request.new_robot_name),
            };
            Ok((SetRobotNameResponse, instruction))
        } else {
            Err(ApiError::BadRequest(RmcsError::AgentNotConnected))
        }
    }

    /// What the network fetch answers the operator: the agent's reply as it
    /// came, not-connected when no link exists, and a refusal when the
    /// broker failed — never a hang.
    pub fn fetch_network_reply(&self, outcome: Option<Result<JsonVal, RmcsError>>) -> (r: Result<
        JsonVal,
        ApiError,
    >)
        ensures
            outcome is None ==> r == Err::<JsonVal, ApiError>(
                ApiError::BadRequest(RmcsError::AgentNotConnected),
            ),
            (outcome matches Some(Err(e)) ==> r == Err::<JsonVal, ApiError>(
                ApiError::BadRequest(e),
            )),
            (outcome matches Some(Ok(v)) ==> r matches Ok(w) && w == v),
    {
        match outcome {
            None => Err(ApiError::BadRequest(RmcsError::AgentNotConnected)),
            Some(Err(e)) => Err(ApiError::BadRequest(e)),
            Some(Ok(v)) => Ok(v),
        }
    }

    /// Refreshing an agent's network telemetry: the agent's reply, exactly
    /// as received, is persisted verbatim under the agent at the given
    /// time; without a link or a reply nothing is stored.
    pub fn refresh_network(
        &self,
        db: &mut Database,
        robot_id: &Vec<u8>,
        outcome: Option<Result<JsonVal, RmcsError>>,
        now: i64,
    ) -> (r: Result<(), ApiError>)
        requires
            old(db).wf(),
        ensures
            final(db).wf(),
            outcome is None ==> r == Err::<(), ApiError>(
                ApiError::BadRequest(RmcsError::AgentNotConnected),
            ) && *final(db) == *old(db),
            (outcome matches Some(Err(e)) ==> r == Err::<(), ApiError>(ApiError::BadRequest(e))
                && *final(db) == *old(db)),
            (outcome matches Some(Ok(v)) ==> r is Ok && network_lookup(
                final(db).network@,
                robot_id@,
            ) == Some((json_text(jview(v)), now as int)) && (forall|k: Seq<u8>|
                k != robot_id@ ==> network_lookup(final(db).network@, k) == network_lookup(
                    old(db).network@,
                    k,
                )) && final(db).robots@ == old(db).robots@),
    {
        match outcome {
            None => Err(ApiError::BadRequest(RmcsError::AgentNotConnected)),
            Some(Err(e)) => Err(ApiError::BadRequest(e)),
            Some(Ok(v)) => {
                let text = json_encode(&v);
                db.write_network_info(robot_id, text, now);
                Ok(())
            },
        }
    }
}

impl IdentApi {
    /// Mints an identity: a fresh uuid and the name `robot_<username>_<mac>`.
    /// Nothing is persisted.
    pub fn whoami(&self, info: &WhoAmI) -> (r: WhoAmIResponse)
        ensures
            is_uuid_text(r.robot_uuid@),
            r.robot_id@ == r.robot_uuid@,
            r.robot_name@ == minted_name(info.username@, info.mac@),
    {
        let robot_uuid = fresh_uuid();
        let robot_id = bytes_copy(&robot_uuid);
        let mut robot_name: Vec<u8> = vec![114u8, 111u8, 98u8, 111u8, 116u8, 95u8];
        let ghost prefix = robot_name@;
        proof {
            assert(prefix =~= seq![114u8, 111u8, 98u8, 111u8, 116u8, 95u8]);
        }
        let mut k: usize = 0;
        while k < info.username.len()
            invariant
                k <= info.username@.len(),
                robot_name@ == prefix + info.username@.take(k as int),
            decreases info.username@.len() - k,
        {
            robot_name.push(info.username[k]);
            proof {
                assert(info.username@.take(k as int).push(info.username@[k as int])
                    =~= info.username@.take(k as int + 1));
                assert(robot_name@ =~= prefix + info.username@.take(k as int + 1));
            }
            k += 1;
        }
        proof {
            assert(info.username@.take(info.username@.len() as int) =~= info.username@);
        }
        robot_name.push(95u8);
        let ghost mid = robot_name@;
        let mut k2: usize = 0;
        while k2 < info.mac.len()
            invariant
                k2 <= info.mac@.len(),
                robot_name@ == mid + info.mac@.take(k2 as int),
            decreases info.mac@.len() - k2,
        {
            robot_name.push(info.mac[k2]);
            proof {
                assert(info.mac@.take(k2 as int).push(info.mac@[k2 as int]) =~= info.mac@.take(
                    k2 as int + 1,
                ));
                assert(robot_name@ =~= mid + info.mac@.take(k2 as int + 1));
            }
            k2 += 1;
        }
        proof {
            assert(info.mac@.take(info.mac@.len() as int) =~= info.mac@);
            assert(robot_name@ =~= minted_name(info.username@, info.mac@));
        }
        WhoAmIResponse { robot_id, robot_uuid, robot_name }
    }

    /// Registers an identity: the upsert keyed on the uuid, and success.
    pub fn sync(&self, db: &mut Database, info: &Sync) -> (r: SyncResponse)
        requires
            old(db).wf(),
        ensures
            register_post(*old(db), *final(db), info.mac@, info.name@, info.uuid@),
            r.success,
    {
        db.register_robot(&info.mac, &info.name, &info.uuid);
        SyncResponse { success: true }
    }

    /// Finds the first stored agent whose name holds the username and whose
    /// mac matches exactly; nothing otherwise.
    pub fn retrieve(&self, db: &Database, username: &Vec<u8>, mac_address: &Vec<u8>) -> (r: Option<
        RetrieveResponse,
    >)
        ensures
            match r {
                Some(x) => fuzz_lookup(db.robots@, username@, mac_address@) == Some(
                    (x.mac@, x.name@, x.uuid@),
                ) && x.robot_id@ == x.uuid@,
                None => fuzz_lookup(db.robots@, username@, mac_address@) is None,
            },
    {
        match db.fuzz_search_by_name(username, mac_address) {
            Some(row) => {
                let robot_id = bytes_copy(&row.uuid);
                Some(
                    RetrieveResponse { robot_id, mac: row.mac, name: row.name, uuid: row.uuid },
                )
            },
            None => None,
        }
    }
}

impl StatsApi {
    /// Every registered agent id, in store order.
    pub fn get_registered_robots(&self, db: &Database) -> (r: Vec<Vec<u8>>)
        ensures
            r@.len() == db.robots@.len(),
            forall|i: int| 0 <= i < r@.len() ==> (#[trigger] r@[i])@ == db.robots@[i].uuid@,
    {
        let mut r: Vec<Vec<u8>> = Vec::new();
        let mut k: usize = 0;
        while k < db.robots.len()
            invariant
                k <= db.robots@.len(),
                r@.len() == k,
                forall|i: int| 0 <= i < k ==> (#[trigger] r@[i])@ == db.robots@[i].uuid@,
            decreases db.robots@.len() - k,
        {
            r.push(bytes_copy(&db.robots[k].uuid));
            k += 1;
        }
        r
    }

    /// The online list: an agent id stands in the answer exactly when a
    /// live connection for it stands in the directory, and each id stands
    /// in it once.
    pub fn get_online_robots(&self, directory: &Directory) -> (r: Vec<Vec<u8>>)
        requires
            directory.wf(),
        ensures
            forall|id: Seq<u8>| ids_contain(r@, id) == directory.spec_online(id),
            forall|i: int, j: int| 0 <= i < j < r@.len() ==> r@[i]@ != r@[j]@,
    {
        directory.online_robots()
    }

    /// The identity row under a uuid, or nothing.
    pub fn get_robot(&self, db: &Database, uuid: &Vec<u8>) -> (r: Option<RobotIdent>)
        ensures
            match r {
                Some(x) => crate::database::robots_lookup(db.robots@, uuid@) == Some(
                    (x.mac@, x.name@, x.uuid@),
                ),
                None => crate::database::robots_lookup(db.robots@, uuid@) is None,
            },
    {
        db.get_robot_by_id(uuid)
    }

    /// The last-observed network telemetry under a uuid: not-found when none
    /// was ever stored; otherwise the stored array, read back, with its
    /// write time.
    pub fn get_robot_network_stats(&self, db: &Database, uuid: &Vec<u8>) -> (r: Result<
        RobotNetworkStatsResponse,
        ApiError,
    >)
        ensures
            r == Err::<RobotNetworkStatsResponse, ApiError>(ApiError::NotFound) <==> network_lookup(
                db.network@,
                uuid@,
            ) is None,
            (r matches Ok(resp) ==> network_lookup(db.network@, uuid@) matches Some((text, t))
                && t == resp.last_updated as int && (spec_parse_json(text, 0) matches Some((g, j))
                && crate::json::ws_only_from(text, j) && info_decodes_to(g, resp.stats@))),
            (network_lookup(db.network@, uuid@) matches Some((text, t)) && (spec_parse_json(
                text,
                0,
            ) matches Some((g, j)) && crate::json::ws_only_from(text, j) && info_decodable(g)))
                ==> r is Ok,
    {
        match db.get_network_info(uuid) {
            Some((text, last_updated)) => {
                match crate::json::json_parse(&text) {
                    Some(v) => {
                        match network_info_of_json(&v) {
                            Ok(stats) => {
                                Ok(RobotNetworkStatsResponse { stats, last_updated })
                            },
                            Err(_) => Err(ApiError::Internal),
                        }
                    },
                    None => Err(ApiError::Internal),
                }
            },
            None => Err(ApiError::NotFound),
        }
    }
}

} // verus!
