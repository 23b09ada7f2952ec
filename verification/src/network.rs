use vstd::prelude::*;

use crate::errors::RmcsError;
use crate::json::{
    Json, JsonVal, bytes_copy, jview, jview_seq, lemma_jview_members_one, lemma_jview_seq_index,
    obj_find, obj_lookup,
};
use crate::wire::{
    key_addr, key_addr_bytes, key_addrs, key_addrs_bytes, key_flags, key_flags_bytes,
    key_hardware_addr, key_hardware_addr_bytes, key_index, key_index_bytes, key_mtu,
    key_mtu_bytes, key_name, key_name_bytes,
};

verus! {

// ---------------------------------------------------------------------------
// The last-observed network telemetry of an agent: an array of interface
// records. The agent reports it as JSON; the typed form here reads and
// writes that JSON exactly, with a null in place of the flag or address
// lists standing for an empty list.
// ---------------------------------------------------------------------------

#[derive(Debug, PartialEq, Eq)]
pub struct Addr {
    pub addr: Vec<u8>,
}

#[derive(Debug, PartialEq, Eq)]
pub struct NetworkInfoItem {
    pub index: i32,
    pub mtu: i32,
    pub name: Vec<u8>,
    pub hardware_addr: Vec<u8>,
    pub flags: Vec<Vec<u8>>,
    pub addrs: Vec<Addr>,
}

/// The stored row: the interface array and when it was written.
pub struct NetworkInfoRow {
    pub info: Vec<NetworkInfoItem>,
    pub last_updated: i64,
}

// ---------------------------------------------------------------------------
// What the JSON of a record is
// ---------------------------------------------------------------------------

pub open spec fn strs_jmodel(s: Seq<Vec<u8>>) -> Seq<Json> {
    Seq::new(s.len(), |i: int| Json::Str(s[i]@))
}

pub open spec fn addrs_jmodel(s: Seq<Addr>) -> Seq<Json> {
    Seq::new(s.len(), |i: int| Json::Obj(seq![(key_addr(), Json::Str(s[i].addr@))]))
}

pub open spec fn item_jmodel(it: NetworkInfoItem) -> Json {
    Json::Obj(
        seq![
            (key_index(), Json::Int(it.index as int)),
            (key_mtu(), Json::Int(it.mtu as int)),
            (key_name(), Json::Str(it.name@)),
            (key_hardware_addr(), Json::Str(it.hardware_addr@)),
            (key_flags(), Json::Arr(strs_jmodel(it.flags@))),
            (key_addrs(), Json::Arr(addrs_jmodel(it.addrs@))),
        ],
    )
}

pub open spec fn info_jmodel(items: Seq<NetworkInfoItem>) -> Json {
    Json::Arr(Seq::new(items.len(), |i: int| item_jmodel(items[i])))
}

// ---------------------------------------------------------------------------
// How the JSON of a record reads
// ---------------------------------------------------------------------------

pub open spec fn strs_decode(gs: Seq<Json>, vs: Seq<Vec<u8>>) -> bool {
    gs.len() == vs.len() && (forall|i: int| 0 <= i < gs.len() ==> gs[i] == Json::Str((
    #[trigger] vs[i])@))
}

pub open spec fn addrs_decode(gs: Seq<Json>, vs: Seq<Addr>) -> bool {
    gs.len() == vs.len() && (forall|i: int|
        0 <= i < gs.len() ==> ((#[trigger] gs[i]) matches Json::Obj(ams) && obj_lookup(
            ams,
            key_addr(),
        ) == Some(Json::Str(vs[i].addr@))))
}

/// A list field that may stand as null: null reads as the empty list.
pub open spec fn item_decodes_to(g: Json, it: NetworkInfoItem) -> bool {
    &&& g matches Json::Obj(ms)
    &&& obj_lookup(g->Obj_0, key_index()) == Some(Json::Int(it.index as int))
    &&& obj_lookup(g->Obj_0, key_mtu()) == Some(Json::Int(it.mtu as int))
    &&& obj_lookup(g->Obj_0, key_name()) == Some(Json::Str(it.name@))
    &&& obj_lookup(g->Obj_0, key_hardware_addr()) == Some(Json::Str(it.hardware_addr@))
    &&& match obj_lookup(g->Obj_0, key_flags()) {
        Some(Json::Null) => it.flags@.len() == 0,
        Some(Json::Arr(gs)) => strs_decode(gs, it.flags@),
        _ => false,
    }
    &&& match obj_lookup(g->Obj_0, key_addrs()) {
        Some(Json::Null) => it.addrs@.len() == 0,
        Some(Json::Arr(gs)) => addrs_decode(gs, it.addrs@),
        _ => false,
    }
}

pub open spec fn info_decodes_to(g: Json, items: Seq<NetworkInfoItem>) -> bool {
    &&& g matches Json::Arr(gs)
    &&& g->Arr_0.len() == items.len()
    &&& forall|i: int| 0 <= i < items.len() ==> item_decodes_to(g->Arr_0[i], #[trigger] items[i])
}

// Whether the JSON reads as an interface array at all: the mirror of the
// decode relations with the record existentially settled.

pub open spec fn strs_decodable(gs: Seq<Json>) -> bool {
    forall|i: int| 0 <= i < gs.len() ==> (#[trigger] gs[i]) is Str
}

pub open spec fn addrs_decodable(gs: Seq<Json>) -> bool {
    forall|i: int|
        0 <= i < gs.len() ==> ((#[trigger] gs[i]) matches Json::Obj(ams) && (obj_lookup(
            ams,
            key_addr(),
        ) matches Some(a) && a is Str))
}

pub open spec fn item_decodable(g: Json) -> bool {
    &&& g is Obj
    &&& (obj_lookup(g->Obj_0, key_index()) matches Some(v) && (v matches Json::Int(n)
        && i32::MIN <= n <= i32::MAX))
    &&& (obj_lookup(g->Obj_0, key_mtu()) matches Some(v) && (v matches Json::Int(n) && i32::MIN
        <= n <= i32::MAX))
    &&& (obj_lookup(g->Obj_0, key_name()) matches Some(v) && v is Str)
    &&& (obj_lookup(g->Obj_0, key_hardware_addr()) matches Some(v) && v is Str)
    &&& match obj_lookup(g->Obj_0, key_flags()) {
        Some(Json::Null) => true,
        Some(Json::Arr(gs)) => strs_decodable(gs),
        _ => false,
    }
    &&& match obj_lookup(g->Obj_0, key_addrs()) {
        Some(Json::Null) => true,
        Some(Json::Arr(gs)) => addrs_decodable(gs),
        _ => false,
    }
}

pub open spec fn info_decodable(g: Json) -> bool {
    &&& g is Arr
    &&& forall|i: int| 0 <= i < g->Arr_0.len() ==> item_decodable(#[trigger] g->Arr_0[i])
}

// ---------------------------------------------------------------------------
// Writing
// ---------------------------------------------------------------------------

impl Addr {
    pub fn to_json(&self) -> (r: JsonVal)
        ensures
            jview(r) == Json::Obj(seq![(key_addr(), Json::Str(self.addr@))]),
    {
        let mut members: Vec<(Vec<u8>, JsonVal)> = Vec::new();
        members.push((key_addr_bytes(), JsonVal::Str(bytes_copy(&self.addr))));
        proof {
            lemma_jview_members_one(members@);
        }
        JsonVal::Obj(members)
    }
}

impl NetworkInfoItem {
    pub fn to_json(&self) -> (r: JsonVal)
        ensures
            jview(r) == item_jmodel(*self),
    {
        let mut flags: Vec<JsonVal> = Vec::new();
        let mut k: usize = 0;
        while k < self.flags.len()
            invariant
                k <= self.flags@.len(),
                flags@.len() == k,
                forall|i: int| 0 <= i < k ==> #[trigger] jview(flags@[i]) == Json::Str(
                    self.flags@[i]@,
                ),
            decreases self.flags@.len() - k,
        {
            flags.push(JsonVal::Str(bytes_copy(&self.flags[k])));
            k += 1;
        }
        proof {
            lemma_jview_seq_index(flags@);
            assert(jview_seq(flags@) =~= strs_jmodel(self.flags@));
        }
        let mut addrs: Vec<JsonVal> = Vec::new();
        let mut k2: usize = 0;
        while k2 < self.addrs.len()
            invariant
                k2 <= self.addrs@.len(),
                addrs@.len() == k2,
                forall|i: int| 0 <= i < k2 ==> #[trigger] jview(addrs@[i]) == Json::Obj(
                    seq![(key_addr(), Json::Str(self.addrs@[i].addr@))],
                ),
            decreases self.addrs@.len() - k2,
        {
            addrs.push(self.addrs[k2].to_json());
            k2 += 1;
        }
        proof {
            lemma_jview_seq_index(addrs@);
            assert(jview_seq(addrs@) =~= addrs_jmodel(self.addrs@));
        }
        let mut members: Vec<(Vec<u8>, JsonVal)> = Vec::new();
        members.push((key_index_bytes(), JsonVal::Int(self.index as i64)));
        members.push((key_mtu_bytes(), JsonVal::Int(self.mtu as i64)));
        members.push((key_name_bytes(), JsonVal::Str(bytes_copy(&self.name))));
        members.push((key_hardware_addr_bytes(), JsonVal::Str(bytes_copy(&self.hardware_addr))));
        members.push((key_flags_bytes(), JsonVal::Arr(flags)));
        members.push((key_addrs_bytes(), JsonVal::Arr(addrs)));
        proof {
            crate::json::lemma_jview_members_index(members@);
            assert(crate::json::jview_members(members@) =~= item_jmodel(*self)->Obj_0);
        }
        JsonVal::Obj(members)
    }
}

/// Writes a whole interface array as `info_jmodel` says.
pub fn network_info_to_json(items: &Vec<NetworkInfoItem>) -> (r: JsonVal)
    ensures
        jview(r) == info_jmodel(items@),
{
    let mut out: Vec<JsonVal> = Vec::new();
    let mut k: usize = 0;
    while k < items.len()
        invariant
            k <= items@.len(),
            out@.len() == k,
            forall|i: int| 0 <= i < k ==> #[trigger] jview(out@[i]) == item_jmodel(items@[i]),
        decreases items@.len() - k,
    {
        out.push(items[k].to_json());
        k += 1;
    }
    proof {
        lemma_jview_seq_index(out@);
        assert(jview_seq(out@) =~= info_jmodel(items@)->Arr_0);
    }
    JsonVal::Arr(out)
}

// ---------------------------------------------------------------------------
// Reading
// ---------------------------------------------------------------------------

fn get_int_field(members: &Vec<(Vec<u8>, JsonVal)>, key: &Vec<u8>) -> (r: Option<i64>)
    ensures
        ({
            let l = obj_lookup(crate::json::jview_members(members@), key@);
            match r {
                Some(n) => l == Some(Json::Int(n as int)),
                None => !(l matches Some(g) && g is Int),
            }
        }),
{
    match obj_find(members, key) {
        Some(idx) => match &members[idx].1 {
            JsonVal::Int(n) => Some(*n),
            _ => None,
        },
        None => None,
    }
}

/// Reads a list of strings; a list comes back exactly when every element
/// is a string.
fn read_strs(gs: &Vec<JsonVal>) -> (r: Option<Vec<Vec<u8>>>)
    ensures
        (r matches Some(vs) ==> strs_decode(jview_seq(gs@), vs@)),
        (r is Some) == strs_decodable(jview_seq(gs@)),
{
    let mut vs: Vec<Vec<u8>> = Vec::new();
    let mut k: usize = 0;
    proof {
        lemma_jview_seq_index(gs@);
    }
    while k < gs.len()
        invariant
            k <= gs@.len(),
            vs@.len() == k,
            jview_seq(gs@).len() == gs@.len(),
            forall|i: int| 0 <= i < gs@.len() ==> jview_seq(gs@)[i] == jview(gs@[i]),
            forall|i: int| 0 <= i < k ==> jview_seq(gs@)[i] == Json::Str((#[trigger] vs@[i])@),
        decreases gs@.len() - k,
    {
        match &gs[k] {
            JsonVal::Str(s) => {
                vs.push(bytes_copy(s));
            },
            _ => {
                proof {
                    crate::json::lemma_jview_kind(gs@[k as int]);
                    assert(!(jview_seq(gs@)[k as int] is Str));
                }
                return None;
            },
        }
        k += 1;
    }
    proof {
        assert forall|i: int| 0 <= i < gs@.len() implies (#[trigger] jview_seq(gs@)[i]) is Str by {
            assert(jview_seq(gs@)[i] == Json::Str(vs@[i]@));
        }
    }
    Some(vs)
}

/// Reads a list of address records; a list comes back exactly when every
/// element is an object with a string under the address key.
fn read_addrs(gs: &Vec<JsonVal>) -> (r: Option<Vec<Addr>>)
    ensures
        (r matches Some(vs) ==> addrs_decode(jview_seq(gs@), vs@)),
        (r is Some) == addrs_decodable(jview_seq(gs@)),
{
    let mut vs: Vec<Addr> = Vec::new();
    let mut k: usize = 0;
    proof {
        lemma_jview_seq_index(gs@);
    }
    while k < gs.len()
        invariant
            k <= gs@.len(),
            vs@.len() == k,
            jview_seq(gs@).len() == gs@.len(),
            forall|i: int| 0 <= i < gs@.len() ==> jview_seq(gs@)[i] == jview(gs@[i]),
            forall|i: int|
                0 <= i < k ==> ((#[trigger] jview_seq(gs@)[i]) matches Json::Obj(ams)
                    && obj_lookup(ams, key_addr()) == Some(Json::Str(vs@[i].addr@))),
        decreases gs@.len() - k,
    {
        match &gs[k] {
            JsonVal::Obj(ams) => {
                match crate::instructions::get_str_field(ams, &key_addr_bytes()) {
                    Some(addr) => {
                        vs.push(Addr { addr });
                    },
                    None => {
                        proof {
                            assert(jview_seq(gs@)[k as int] == Json::Obj(
                                crate::json::jview_members(ams@),
                            ));
                            assert(!addrs_decodable(jview_seq(gs@)));
                        }
                        return None;
                    },
                }
            },
            _ => {
                proof {
                    crate::json::lemma_jview_kind(gs@[k as int]);
                    assert(!(jview_seq(gs@)[k as int] is Obj));
                    assert(!addrs_decodable(jview_seq(gs@)));
                }
                return None;
            },
        }
        k += 1;
    }
    proof {
        assert forall|i: int|
            0 <= i < gs@.len() implies ((#[trigger] jview_seq(gs@)[i]) matches Json::Obj(ams) && (
            obj_lookup(ams, key_addr()) matches Some(a) && a is Str)) by {}
    }
    Some(vs)
}

/// Reads one interface record: a record comes back exactly when every
/// field reads.
#[verifier::rlimit(30)]
fn item_of_json(g: &JsonVal) -> (r: Option<NetworkInfoItem>)
    ensures
        (r matches Some(it) ==> item_decodes_to(jview(*g), it)),
        (r is Some) == item_decodable(jview(*g)),
{
    let members = match g {
        JsonVal::Obj(members) => members,
        _ => {
            proof {
                crate::json::lemma_jview_kind(*g);
            }
            return None;
        },
    };
    let ghost ms = crate::json::jview_members(members@);
    let index64 = match get_int_field(members, &key_index_bytes()) {
        Some(n) => n,
        None => {
            return None;
        },
    };
    let mtu64 = match get_int_field(members, &key_mtu_bytes()) {
        Some(n) => n,
        None => {
            return None;
        },
    };
    if index64 > i32::MAX as i64 || index64 < i32::MIN as i64 || mtu64 > i32::MAX as i64 || mtu64
        < i32::MIN as i64 {
        return None;
    }
    let name = match crate::instructions::get_str_field(members, &key_name_bytes()) {
        Some(b) => b,
        None => {
            return None;
        },
    };
    let hardware_addr = match crate::instructions::get_str_field(
        members,
        &key_hardware_addr_bytes(),
    ) {
        Some(b) => b,
        None => {
            return None;
        },
    };
    let flags_read: Option<Vec<Vec<u8>>> = match obj_find(members, &key_flags_bytes()) {
        Some(fi) => match &members[fi].1 {
            JsonVal::Null => Some(Vec::new()),
            JsonVal::Arr(gs) => {
                let r = read_strs(gs);
                proof {
                    assert(obj_lookup(ms, key_flags()) == Some(Json::Arr(jview_seq(gs@))));
                }
                r
            },
            _ => {
                proof {
                    crate::json::lemma_jview_kind(members@[fi as int].1);
                }
                None
            },
        },
        None => None,
    };
    let flags = match flags_read {
        Some(flags) => flags,
        None => {
            return None;
        },
    };
    let addrs_read: Option<Vec<Addr>> = match obj_find(members, &key_addrs_bytes()) {
        Some(ai) => match &members[ai].1 {
            JsonVal::Null => Some(Vec::new()),
            JsonVal::Arr(gs) => {
                let r = read_addrs(gs);
                proof {
                    assert(obj_lookup(ms, key_addrs()) == Some(Json::Arr(jview_seq(gs@))));
                }
                r
            },
            _ => {
                proof {
                    crate::json::lemma_jview_kind(members@[ai as int].1);
                }
                None
            },
        },
        None => None,
    };
    let addrs = match addrs_read {
        Some(addrs) => addrs,
        None => {
            return None;
        },
    };
    proof {
        assert(jview_seq(Seq::<JsonVal>::empty()) =~= Seq::<Json>::empty());
    }
    Some(
        NetworkInfoItem {
            index: index64 as i32,
            mtu: mtu64 as i32,
            name,
            hardware_addr,
            flags,
            addrs,
        },
    )
}

/// Reads a whole interface array: the array comes back exactly when every
/// record reads; one unreadable record refuses the whole array.
#[verifier::loop_isolation(false)]
pub fn network_info_of_json(g: &JsonVal) -> (r: Result<Vec<NetworkInfoItem>, RmcsError>)
    ensures
        (r matches Ok(items) ==> info_decodes_to(jview(*g), items@)),
        (r is Ok) == info_decodable(jview(*g)),
        r is Err ==> r == Err::<Vec<NetworkInfoItem>, RmcsError>(RmcsError::ParseError),
{
    let gs = match g {
        JsonVal::Arr(gs) => gs,
        _ => {
            proof {
                crate::json::lemma_jview_kind(*g);
            }
            return Err(RmcsError::ParseError);
        },
    };
    let mut items: Vec<NetworkInfoItem> = Vec::new();
    let mut k: usize = 0;
    proof {
        lemma_jview_seq_index(gs@);
    }
    while k < gs.len()
        invariant
            k <= gs@.len(),
            items@.len() == k,
            jview_seq(gs@).len() == gs@.len(),
            forall|i: int| 0 <= i < gs@.len() ==> jview_seq(gs@)[i] == jview(gs@[i]),
            forall|i: int| 0 <= i < k ==> item_decodes_to(jview_seq(gs@)[i], #[trigger] items@[i]),
            forall|i: int| 0 <= i < k ==> item_decodable(#[trigger] jview_seq(gs@)[i]),
        decreases gs@.len() - k,
    {
        match item_of_json(&gs[k]) {
            Some(it) => {
                items.push(it);
            },
            None => {
                proof {
                    assert(jview(*g)->Arr_0 == jview_seq(gs@));
                    assert(!item_decodable(jview(*g)->Arr_0[k as int]));
                }
                return Err(RmcsError::ParseError);
            },
        }
        k += 1;
    }
    Ok(items)
}

} // verus!
