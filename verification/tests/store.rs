use rmcs_actions_service::api::{Api, ActionApi, ApiError, IdentApi, StatsApi, Sync,
    SetRobotIdRequest, SetRobotNameRequest, WhoAmI};
use rmcs_actions_service::database::Database;
use rmcs_actions_service::directory::Directory;
use rmcs_actions_service::errors::RmcsError;
use rmcs_actions_service::instructions::Instruction;
use rmcs_actions_service::json::{JsonVal, json_parse};

#[test]
fn ping_and_version() {
    let api = Api;
    assert_eq!(api.pong(), "pong");
    let v = api.version();
    assert_eq!(v.version, b"0.1.0".to_vec());
}

#[test]
fn sync_is_idempotent() {
    let ident = IdentApi;
    let mut db = Database::new();
    let info = Sync {
        robot_id: b"u1".to_vec(),
        mac: b"AA".to_vec(),
        name: b"robot_alice_AA".to_vec(),
        uuid: b"u1".to_vec(),
    };
    let r1 = ident.sync(&mut db, &info);
    assert!(r1.success);
    let rows_after_first = db.get_robots();
    let r2 = ident.sync(&mut db, &info);
    assert!(r2.success);
    let rows_after_second = db.get_robots();
    assert_eq!(rows_after_first, rows_after_second);
    assert_eq!(rows_after_second.len(), 1);
    let row = db.get_robot_by_id(&b"u1".to_vec()).unwrap();
    assert_eq!(row.mac, b"AA".to_vec());
    assert_eq!(row.name, b"robot_alice_AA".to_vec());
}

#[test]
fn register_updates_in_place() {
    let mut db = Database::new();
    db.register_robot(&b"AA".to_vec(), &b"one".to_vec(), &b"u1".to_vec());
    db.register_robot(&b"BB".to_vec(), &b"two".to_vec(), &b"u1".to_vec());
    assert_eq!(db.get_robots().len(), 1);
    let row = db.get_robot_by_id(&b"u1".to_vec()).unwrap();
    assert_eq!(row.mac, b"BB".to_vec());
    assert_eq!(row.name, b"two".to_vec());
    assert!(db.get_robot_by_id(&b"u2".to_vec()).is_none());
}

#[test]
fn fuzz_lookup_scenario() {
    let ident = IdentApi;
    let mut db = Database::new();
    db.register_robot(&b"AA".to_vec(), &b"robot_alice_AA".to_vec(), &b"u1".to_vec());
    db.register_robot(&b"BB".to_vec(), &b"robot_alice_BB".to_vec(), &b"u2".to_vec());
    let hit = ident.retrieve(&db, &b"alice".to_vec(), &b"AA".to_vec()).unwrap();
    assert_eq!(hit.uuid, b"u1".to_vec());
    assert_eq!(hit.name, b"robot_alice_AA".to_vec());
    let miss = ident.retrieve(&db, &b"alice".to_vec(), &b"CC".to_vec());
    assert!(miss.is_none());
    let miss2 = ident.retrieve(&db, &b"bob".to_vec(), &b"AA".to_vec());
    assert!(miss2.is_none());
}

#[test]
fn whoami_mints_identity() {
    let ident = IdentApi;
    let r = ident.whoami(&WhoAmI { username: b"alice".to_vec(), mac: b"AA".to_vec() });
    assert_eq!(r.robot_name, b"robot_alice_AA".to_vec());
    assert_eq!(r.robot_uuid.len(), 36);
    assert_eq!(r.robot_uuid, r.robot_id);
    for (i, b) in r.robot_uuid.iter().enumerate() {
        if i == 8 || i == 13 || i == 18 || i == 23 {
            assert_eq!(*b, b'-');
        } else {
            assert!(b.is_ascii_hexdigit());
        }
    }
    // a second minting draws a different uuid
    let r2 = ident.whoami(&WhoAmI { username: b"alice".to_vec(), mac: b"AA".to_vec() });
    assert_ne!(r.robot_uuid, r2.robot_uuid);
}

#[test]
fn online_robots_mirror_directory() {
    let stats = StatsApi;
    let mut d = Directory::new();
    assert!(stats.get_online_robots(&d).is_empty());
    d.insert(b"r1".to_vec());
    d.insert(b"r2".to_vec());
    d.insert(b"r1".to_vec()); // a second link-up for the same agent
    let online = stats.get_online_robots(&d);
    assert_eq!(online.len(), 2);
    assert!(online.contains(&b"r1".to_vec()));
    assert!(online.contains(&b"r2".to_vec()));
    d.remove(&b"r1".to_vec());
    let online = stats.get_online_robots(&d);
    assert_eq!(online, vec![b"r2".to_vec()]);
    assert!(!d.contains(&b"r1".to_vec()));
    assert!(d.contains(&b"r2".to_vec()));
}

#[test]
fn registered_robots_lists_uuids() {
    let stats = StatsApi;
    let mut db = Database::new();
    db.register_robot(&b"AA".to_vec(), &b"one".to_vec(), &b"u1".to_vec());
    db.register_robot(&b"BB".to_vec(), &b"two".to_vec(), &b"u2".to_vec());
    assert_eq!(stats.get_registered_robots(&db), vec![b"u1".to_vec(), b"u2".to_vec()]);
    let row = stats.get_robot(&db, &b"u2".to_vec()).unwrap();
    assert_eq!(row.name, b"two".to_vec());
    assert!(stats.get_robot(&db, &b"u3".to_vec()).is_none());
}

#[test]
fn refresh_network_persists_reply() {
    let action = ActionApi;
    let stats = StatsApi;
    let mut db = Database::new();
    let reply_text = b"[{\"index\":1,\"mtu\":1500,\"name\":\"eth0\",\
        \"hardware_addr\":\"00:11:22:33:44:55\",\"flags\":[\"up\"],\
        \"addrs\":[{\"addr\":\"10.0.0.2/24\"}]}]"
        .to_vec();
    let reply = json_parse(&reply_text).unwrap();
    let r = action.refresh_network(&mut db, &b"r1".to_vec(), Some(Ok(reply)), 777);
    assert!(r.is_ok());

    let (stored, t) = db.get_network_info(&b"r1".to_vec()).unwrap();
    assert_eq!(stored, reply_text);
    assert_eq!(t, 777);

    let resp = stats.get_robot_network_stats(&db, &b"r1".to_vec()).unwrap();
    assert_eq!(resp.last_updated, 777);
    assert_eq!(resp.stats.len(), 1);
    let item = &resp.stats[0];
    assert_eq!(item.index, 1);
    assert_eq!(item.mtu, 1500);
    assert_eq!(item.name, b"eth0".to_vec());
    assert_eq!(item.hardware_addr, b"00:11:22:33:44:55".to_vec());
    assert_eq!(item.flags, vec![b"up".to_vec()]);
    assert_eq!(item.addrs.len(), 1);
    assert_eq!(item.addrs[0].addr, b"10.0.0.2/24".to_vec());

    assert_eq!(
        stats.get_robot_network_stats(&db, &b"r2".to_vec()).unwrap_err(),
        ApiError::NotFound
    );
}

#[test]
fn refresh_network_without_link_stores_nothing() {
    let action = ActionApi;
    let mut db = Database::new();
    let r = action.refresh_network(&mut db, &b"r1".to_vec(), None, 1);
    assert_eq!(r.unwrap_err(), ApiError::BadRequest(RmcsError::AgentNotConnected));
    let r = action.refresh_network(
        &mut db,
        &b"r1".to_vec(),
        Some(Err(RmcsError::ChannelClosed)),
        1,
    );
    assert_eq!(r.unwrap_err(), ApiError::BadRequest(RmcsError::ChannelClosed));
    assert!(db.get_network_info(&b"r1".to_vec()).is_none());
}

#[test]
fn null_lists_read_as_empty() {
    let stats = StatsApi;
    let action = ActionApi;
    let mut db = Database::new();
    let reply_text = b"[{\"index\":2,\"mtu\":0,\"name\":\"lo\",\"hardware_addr\":\"\",\
        \"flags\":null,\"addrs\":null}]"
        .to_vec();
    let reply = json_parse(&reply_text).unwrap();
    action.refresh_network(&mut db, &b"r1".to_vec(), Some(Ok(reply)), 5).unwrap();
    let resp = stats.get_robot_network_stats(&db, &b"r1".to_vec()).unwrap();
    assert!(resp.stats[0].flags.is_empty());
    assert!(resp.stats[0].addrs.is_empty());
}

#[test]
fn set_robot_name_updates_store() {
    let action = ActionApi;
    let mut db = Database::new();
    db.register_robot(&b"AA".to_vec(), &b"old_name".to_vec(), &b"u1".to_vec());
    let req = SetRobotNameRequest {
        robot_uuid: b"u1".to_vec(),
        new_robot_name: b"atlas".to_vec(),
    };
    let (_, instruction) = action.set_robot_name(&mut db, true, &req).unwrap();
    assert_eq!(instruction, Instruction::SyncRobotName { robot_name: b"atlas".to_vec() });
    let row = db.get_robot_by_id(&b"u1".to_vec()).unwrap();
    assert_eq!(row.name, b"atlas".to_vec());
    assert_eq!(row.mac, b"AA".to_vec());

    // offline: refused, store untouched
    assert_eq!(
        action.set_robot_name(&mut db, false, &req).unwrap_err(),
        ApiError::BadRequest(RmcsError::AgentNotConnected)
    );
    let row = db.get_robot_by_id(&b"u1".to_vec()).unwrap();
    assert_eq!(row.name, b"atlas".to_vec());

    // an online agent with no stored row: instruction issued, nothing stored
    let req2 = SetRobotNameRequest {
        robot_uuid: b"u9".to_vec(),
        new_robot_name: b"ghost".to_vec(),
    };
    let (_, _) = action.set_robot_name(&mut db, true, &req2).unwrap();
    assert!(db.get_robot_by_id(&b"u9".to_vec()).is_none());
    assert_eq!(db.get_robots().len(), 1);
}

#[test]
fn set_robot_id_decision() {
    let api = Api;
    let req = SetRobotIdRequest { robot_id: b"r1".to_vec(), new_robot_id: b"r2".to_vec() };
    let (resp, instruction) = api.set_robot_id(true, &req);
    assert!(resp.success);
    assert_eq!(instruction, Some(Instruction::SyncRobotId { robot_id: b"r2".to_vec() }));
    let (resp, instruction) = api.set_robot_id(false, &req);
    assert!(!resp.success);
    assert!(instruction.is_none());
    assert_eq!(
        ActionApi.fetch_network_reply(Some(Ok(JsonVal::Null))).unwrap(),
        JsonVal::Null
    );
}

#[test]
fn message_constructors_stamp_session() {
    let m = rmcs_actions_service::message::Message::new_event_with_uuid(
        b"11111111-1111-1111-1111-111111111111".to_vec(),
        JsonVal::Obj(vec![]),
    );
    assert_eq!(m.session_id, b"11111111-1111-1111-1111-111111111111".to_vec());
    match m.payload {
        rmcs_actions_service::message::MessagePayload::Event { content } => {
            assert_eq!(content, JsonVal::Obj(vec![]));
        }
        other => panic!("wrong payload: {:?}", other),
    }
}
