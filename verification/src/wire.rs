use vstd::prelude::*;

verus! {

// ---------------------------------------------------------------------------
// The field names and discriminator values of the wire protocol, as byte
// strings: each name once as a mathematical sequence and once as a runtime
// vector that provably spells it.
// ---------------------------------------------------------------------------

/// `"session_id"`.
pub open spec fn key_session_id() -> Seq<u8> {
    seq![115u8, 101u8, 115u8, 115u8, 105u8, 111u8, 110u8, 95u8, 105u8, 100u8]
}

pub fn key_session_id_bytes() -> (r: Vec<u8>)
    ensures
        r@ == key_session_id(),
{
    let r: Vec<u8> = vec![115u8, 101u8, 115u8, 115u8, 105u8, 111u8, 110u8, 95u8, 105u8, 100u8];
    proof {
        assert(r@ =~= key_session_id());
    }
    r
}

/// `"local_timestamp"`.
pub open spec fn key_local_timestamp() -> Seq<u8> {
    seq![108u8, 111u8, 99u8, 97u8, 108u8, 95u8, 116u8, 105u8, 109u8, 101u8, 115u8, 116u8, 97u8, 109u8, 112u8]
}

pub fn key_local_timestamp_bytes() -> (r: Vec<u8>)
    ensures
        r@ == key_local_timestamp(),
{
    let r: Vec<u8> = vec![108u8, 111u8, 99u8, 97u8, 108u8, 95u8, 116u8, 105u8, 109u8, 101u8, 115u8, 116u8, 97u8, 109u8, 112u8];
    proof {
        assert(r@ =~= key_local_timestamp());
    }
    r
}

/// `"payload"`.
pub open spec fn key_payload() -> Seq<u8> {
    seq![112u8, 97u8, 121u8, 108u8, 111u8, 97u8, 100u8]
}

pub fn key_payload_bytes() -> (r: Vec<u8>)
    ensures
        r@ == key_payload(),
{
    let r: Vec<u8> = vec![112u8, 97u8, 121u8, 108u8, 111u8, 97u8, 100u8];
    proof {
        assert(r@ =~= key_payload());
    }
    r
}

/// `"type"`.
pub open spec fn key_type() -> Seq<u8> {
    seq![116u8, 121u8, 112u8, 101u8]
}

pub fn key_type_bytes() -> (r: Vec<u8>)
    ensures
        r@ == key_type(),
{
    let r: Vec<u8> = vec![116u8, 121u8, 112u8, 101u8];
    proof {
        assert(r@ =~= key_type());
    }
    r
}

/// `"content"`.
pub open spec fn key_content() -> Seq<u8> {
    seq![99u8, 111u8, 110u8, 116u8, 101u8, 110u8, 116u8]
}

pub fn key_content_bytes() -> (r: Vec<u8>)
    ensures
        r@ == key_content(),
{
    let r: Vec<u8> = vec![99u8, 111u8, 110u8, 116u8, 101u8, 110u8, 116u8];
    proof {
        assert(r@ =~= key_content());
    }
    r
}

/// `"instruction"`.
pub open spec fn key_instruction() -> Seq<u8> {
    seq![105u8, 110u8, 115u8, 116u8, 114u8, 117u8, 99u8, 116u8, 105u8, 111u8, 110u8]
}

pub fn key_instruction_bytes() -> (r: Vec<u8>)
    ensures
        r@ == key_instruction(),
{
    let r: Vec<u8> = vec![105u8, 110u8, 115u8, 116u8, 114u8, 117u8, 99u8, 116u8, 105u8, 111u8, 110u8];
    proof {
        assert(r@ =~= key_instruction());
    }
    r
}

/// `"message"`.
pub open spec fn key_message() -> Seq<u8> {
    seq![109u8, 101u8, 115u8, 115u8, 97u8, 103u8, 101u8]
}

pub fn key_message_bytes() -> (r: Vec<u8>)
    ensures
        r@ == key_message(),
{
    let r: Vec<u8> = vec![109u8, 101u8, 115u8, 115u8, 97u8, 103u8, 101u8];
    proof {
        assert(r@ =~= key_message());
    }
    r
}

/// `"robot_id"`.
pub open spec fn key_robot_id() -> Seq<u8> {
    seq![114u8, 111u8, 98u8, 111u8, 116u8, 95u8, 105u8, 100u8]
}

pub fn key_robot_id_bytes() -> (r: Vec<u8>)
    ensures
        r@ == key_robot_id(),
{
    let r: Vec<u8> = vec![114u8, 111u8, 98u8, 111u8, 116u8, 95u8, 105u8, 100u8];
    proof {
        assert(r@ =~= key_robot_id());
    }
    r
}

/// `"robot_name"`.
pub open spec fn key_robot_name() -> Seq<u8> {
    seq![114u8, 111u8, 98u8, 111u8, 116u8, 95u8, 110u8, 97u8, 109u8, 101u8]
}

pub fn key_robot_name_bytes() -> (r: Vec<u8>)
    ensures
        r@ == key_robot_name(),
{
    let r: Vec<u8> = vec![114u8, 111u8, 98u8, 111u8, 116u8, 95u8, 110u8, 97u8, 109u8, 101u8];
    proof {
        assert(r@ =~= key_robot_name());
    }
    r
}

/// `"event"`.
pub open spec fn key_event() -> Seq<u8> {
    seq![101u8, 118u8, 101u8, 110u8, 116u8]
}

pub fn key_event_bytes() -> (r: Vec<u8>)
    ensures
        r@ == key_event(),
{
    let r: Vec<u8> = vec![101u8, 118u8, 101u8, 110u8, 116u8];
    proof {
        assert(r@ =~= key_event());
    }
    r
}

/// `"detail"`.
pub open spec fn key_detail() -> Seq<u8> {
    seq![100u8, 101u8, 116u8, 97u8, 105u8, 108u8]
}

pub fn key_detail_bytes() -> (r: Vec<u8>)
    ensures
        r@ == key_detail(),
{
    let r: Vec<u8> = vec![100u8, 101u8, 116u8, 97u8, 105u8, 108u8];
    proof {
        assert(r@ =~= key_detail());
    }
    r
}

/// `"instruction"`.
pub open spec fn tag_instruction() -> Seq<u8> {
    seq![105u8, 110u8, 115u8, 116u8, 114u8, 117u8, 99u8, 116u8, 105u8, 111u8, 110u8]
}

pub fn tag_instruction_bytes() -> (r: Vec<u8>)
    ensures
        r@ == tag_instruction(),
{
    let r: Vec<u8> = vec![105u8, 110u8, 115u8, 116u8, 114u8, 117u8, 99u8, 116u8, 105u8, 111u8, 110u8];
    proof {
        assert(r@ =~= tag_instruction());
    }
    r
}

/// `"event"`.
pub open spec fn tag_event() -> Seq<u8> {
    seq![101u8, 118u8, 101u8, 110u8, 116u8]
}

pub fn tag_event_bytes() -> (r: Vec<u8>)
    ensures
        r@ == tag_event(),
{
    let r: Vec<u8> = vec![101u8, 118u8, 101u8, 110u8, 116u8];
    proof {
        assert(r@ =~= tag_event());
    }
    r
}

/// `"response"`.
pub open spec fn tag_response() -> Seq<u8> {
    seq![114u8, 101u8, 115u8, 112u8, 111u8, 110u8, 115u8, 101u8]
}

pub fn tag_response_bytes() -> (r: Vec<u8>)
    ensures
        r@ == tag_response(),
{
    let r: Vec<u8> = vec![114u8, 101u8, 115u8, 112u8, 111u8, 110u8, 115u8, 101u8];
    proof {
        assert(r@ =~= tag_response());
    }
    r
}

/// `"close"`.
pub open spec fn tag_close() -> Seq<u8> {
    seq![99u8, 108u8, 111u8, 115u8, 101u8]
}

pub fn tag_close_bytes() -> (r: Vec<u8>)
    ensures
        r@ == tag_close(),
{
    let r: Vec<u8> = vec![99u8, 108u8, 111u8, 115u8, 101u8];
    proof {
        assert(r@ =~= tag_close());
    }
    r
}

/// `"sync_robot_id"`.
pub open spec fn tag_sync_robot_id() -> Seq<u8> {
    seq![115u8, 121u8, 110u8, 99u8, 95u8, 114u8, 111u8, 98u8, 111u8, 116u8, 95u8, 105u8, 100u8]
}

pub fn tag_sync_robot_id_bytes() -> (r: Vec<u8>)
    ensures
        r@ == tag_sync_robot_id(),
{
    let r: Vec<u8> = vec![115u8, 121u8, 110u8, 99u8, 95u8, 114u8, 111u8, 98u8, 111u8, 116u8, 95u8, 105u8, 100u8];
    proof {
        assert(r@ =~= tag_sync_robot_id());
    }
    r
}

/// `"sync_robot_name"`.
pub open spec fn tag_sync_robot_name() -> Seq<u8> {
    seq![115u8, 121u8, 110u8, 99u8, 95u8, 114u8, 111u8, 98u8, 111u8, 116u8, 95u8, 110u8, 97u8, 109u8, 101u8]
}

pub fn tag_sync_robot_name_bytes() -> (r: Vec<u8>)
    ensures
        r@ == tag_sync_robot_name(),
{
    let r: Vec<u8> = vec![115u8, 121u8, 110u8, 99u8, 95u8, 114u8, 111u8, 98u8, 111u8, 116u8, 95u8, 110u8, 97u8, 109u8, 101u8];
    proof {
        assert(r@ =~= tag_sync_robot_name());
    }
    r
}

/// `"fetch_network"`.
pub open spec fn tag_fetch_network() -> Seq<u8> {
    seq![102u8, 101u8, 116u8, 99u8, 104u8, 95u8, 110u8, 101u8, 116u8, 119u8, 111u8, 114u8, 107u8]
}

pub fn tag_fetch_network_bytes() -> (r: Vec<u8>)
    ensures
        r@ == tag_fetch_network(),
{
    let r: Vec<u8> = vec![102u8, 101u8, 116u8, 99u8, 104u8, 95u8, 110u8, 101u8, 116u8, 119u8, 111u8, 114u8, 107u8];
    proof {
        assert(r@ =~= tag_fetch_network());
    }
    r
}

/// `"update_metadata"`.
pub open spec fn tag_update_metadata() -> Seq<u8> {
    seq![117u8, 112u8, 100u8, 97u8, 116u8, 101u8, 95u8, 109u8, 101u8, 116u8, 97u8, 100u8, 97u8, 116u8, 97u8]
}

pub fn tag_update_metadata_bytes() -> (r: Vec<u8>)
    ensures
        r@ == tag_update_metadata(),
{
    let r: Vec<u8> = vec![117u8, 112u8, 100u8, 97u8, 116u8, 101u8, 95u8, 109u8, 101u8, 116u8, 97u8, 100u8, 97u8, 116u8, 97u8];
    proof {
        assert(r@ =~= tag_update_metadata());
    }
    r
}

/// `"heartbeat"`.
pub open spec fn tag_heartbeat() -> Seq<u8> {
    seq![104u8, 101u8, 97u8, 114u8, 116u8, 98u8, 101u8, 97u8, 116u8]
}

pub fn tag_heartbeat_bytes() -> (r: Vec<u8>)
    ensures
        r@ == tag_heartbeat(),
{
    let r: Vec<u8> = vec![104u8, 101u8, 97u8, 114u8, 116u8, 98u8, 101u8, 97u8, 116u8];
    proof {
        assert(r@ =~= tag_heartbeat());
    }
    r
}

/// `"index"`.
pub open spec fn key_index() -> Seq<u8> {
    seq![105u8, 110u8, 100u8, 101u8, 120u8]
}

pub fn key_index_bytes() -> (r: Vec<u8>)
    ensures
        r@ == key_index(),
{
    let r: Vec<u8> = vec![105u8, 110u8, 100u8, 101u8, 120u8];
    proof {
        assert(r@ =~= key_index());
    }
    r
}

/// `"mtu"`.
pub open spec fn key_mtu() -> Seq<u8> {
    seq![109u8, 116u8, 117u8]
}

pub fn key_mtu_bytes() -> (r: Vec<u8>)
    ensures
        r@ == key_mtu(),
{
    let r: Vec<u8> = vec![109u8, 116u8, 117u8];
    proof {
        assert(r@ =~= key_mtu());
    }
    r
}

/// `"name"`.
pub open spec fn key_name() -> Seq<u8> {
    seq![110u8, 97u8, 109u8, 101u8]
}

pub fn key_name_bytes() -> (r: Vec<u8>)
    ensures
        r@ == key_name(),
{
    let r: Vec<u8> = vec![110u8, 97u8, 109u8, 101u8];
    proof {
        assert(r@ =~= key_name());
    }
    r
}

/// `"hardware_addr"`.
pub open spec fn key_hardware_addr() -> Seq<u8> {
    seq![104u8, 97u8, 114u8, 100u8, 119u8, 97u8, 114u8, 101u8, 95u8, 97u8, 100u8, 100u8, 114u8]
}

pub fn key_hardware_addr_bytes() -> (r: Vec<u8>)
    ensures
        r@ == key_hardware_addr(),
{
    let r: Vec<u8> = vec![104u8, 97u8, 114u8, 100u8, 119u8, 97u8, 114u8, 101u8, 95u8, 97u8, 100u8, 100u8, 114u8];
    proof {
        assert(r@ =~= key_hardware_addr());
    }
    r
}

/// `"flags"`.
pub open spec fn key_flags() -> Seq<u8> {
    seq![102u8, 108u8, 97u8, 103u8, 115u8]
}

pub fn key_flags_bytes() -> (r: Vec<u8>)
    ensures
        r@ == key_flags(),
{
    let r: Vec<u8> = vec![102u8, 108u8, 97u8, 103u8, 115u8];
    proof {
        assert(r@ =~= key_flags());
    }
    r
}

/// `"addrs"`.
pub open spec fn key_addrs() -> Seq<u8> {
    seq![97u8, 100u8, 100u8, 114u8, 115u8]
}

pub fn key_addrs_bytes() -> (r: Vec<u8>)
    ensures
        r@ == key_addrs(),
{
    let r: Vec<u8> = vec![97u8, 100u8, 100u8, 114u8, 115u8];
    proof {
        assert(r@ =~= key_addrs());
    }
    r
}

/// `"addr"`.
pub open spec fn key_addr() -> Seq<u8> {
    seq![97u8, 100u8, 100u8, 114u8]
}

pub fn key_addr_bytes() -> (r: Vec<u8>)
    ensures
        r@ == key_addr(),
{
    let r: Vec<u8> = vec![97u8, 100u8, 100u8, 114u8];
    proof {
        assert(r@ =~= key_addr());
    }
    r
}

} // verus!
