//! The boundary to the protocol middleware: raw receive batches are decoded
//! into packets, and outgoing messages are split into fragments. The
//! middleware does both; this module states what the session layer relies on
//! and turns the decoder's numeric codes into the session layer's own types.

use cands_presentation::cyphal::digitalservo::string::Str;
use cands_transport::cyphal::CyphalMiddleware;
use vstd::prelude::*;
use vstd::string::StringSliceAdditionalSpecFns;
use crate::frame::{append_bytes, packet_views, tx_views, FrameRole, MTU_CAN_FD, Packet, PacketView, Props, TransferKind, TxPacket, TxPacketView};

verus! {

/// Number of bytes that one fragment takes in a raw receive batch: identifier,
/// header and a buffer of the maximum transfer unit.
pub const RAW_FRAME_LEN: usize = MTU_CAN_FD + 8;

/// Place, within a raw fragment, of the byte whose low four bits are the data length code.
pub const RAW_DLC_OFFSET: usize = 6;

/// One decoded fragment with the decoder's enumerations as numbers, in the
/// order in which the middleware declares their variants.
#[derive(Clone, Debug, PartialEq, Eq)]
pub struct RawPacket {
    pub xid: u32,
    pub payload: Vec<u8>,
    pub payload_size: usize,
    pub frame_type: u8,
    pub priority: u8,
    pub transfer_kind: u8,
    pub transfer_id: u8,
    pub port_id: u16,
    pub source_node_id: u8,
    pub destination_node_id: u8,
}

/// Mathematical value of a [`RawPacket`].
pub ghost struct RawPacketView {
    pub xid: u32,
    pub payload: Seq<u8>,
    pub payload_size: usize,
    pub frame_type: u8,
    pub priority: u8,
    pub transfer_kind: u8,
    pub transfer_id: u8,
    pub port_id: u16,
    pub source_node_id: u8,
    pub destination_node_id: u8,
}

impl View for RawPacket {
    type V = RawPacketView;

    open spec fn view(&self) -> RawPacketView {
        RawPacketView {
            xid: self.xid,
            payload: self.payload@,
            payload_size: self.payload_size,
            frame_type: self.frame_type,
            priority: self.priority,
            transfer_kind: self.transfer_kind,
            transfer_id: self.transfer_id,
            port_id: self.port_id,
            source_node_id: self.source_node_id,
            destination_node_id: self.destination_node_id,
        }
    }
}

/// Views of a sequence of raw packets, in order.
pub open spec fn raw_views(raws: Seq<RawPacket>) -> Seq<RawPacketView> {
    Seq::new(raws.len(), |i: int| raws[i]@)
}

/// What `CyphalMiddleware::<64>::try_read` returns for a raw batch, on a
/// middleware made for `node_id`; `None` where it returns an error.
pub uninterp spec fn raw_packets(node_id: u8, data: Seq<u8>) -> Option<Seq<RawPacketView>>;

/// What `CyphalMiddleware::<64>::create_message_data` returns for a payload,
/// on a middleware made for `node_id` whose transfer identifier is
/// `transfer_id`; `None` where it returns an error.
pub uninterp spec fn message_fragments(
    node_id: u8,
    transfer_id: u8,
    subject_id: u16,
    payload: Seq<u8>,
) -> Option<Seq<TxPacketView>>;

/// What `CyphalMiddleware::<64>::create_request_data` returns, as
/// [`message_fragments`] does for messages.
pub uninterp spec fn request_fragments(
    node_id: u8,
    transfer_id: u8,
    channel: u8,
    service_id: u16,
    payload: Seq<u8>,
) -> Option<Seq<TxPacketView>>;

/// What `CyphalMiddleware::<64>::create_response_data` returns, as
/// [`message_fragments`] does for messages.
pub uninterp spec fn response_fragments(
    node_id: u8,
    transfer_id: u8,
    channel: u8,
    service_id: u16,
    payload: Seq<u8>,
) -> Option<Seq<TxPacketView>>;

/// The data length code of fragment `k` of a raw batch.
pub open spec fn raw_dlc(data: Seq<u8>, k: int) -> u8 {
    data[k * 72 + 6] & 0x0f
}

/// The raw batch is a whole number of fragments, each with a data length
/// code other than zero: a fragment always holds its tail byte.
pub open spec fn decodable(data: Seq<u8>) -> bool {
    data.len() % 72 == 0 && forall|k: int| 0 <= k < data.len() / 72 ==> #[trigger] raw_dlc(data, k) != 0
}

/// Each raw packet has a buffer of 64 bytes, of which fewer than 64 count,
/// and codes that stand for a frame type and a transfer kind.
pub open spec fn well_formed_raws(raws: Seq<RawPacketView>) -> bool {
    forall|i: int|
        0 <= i < raws.len() ==> (#[trigger] raws[i]).payload.len() == 64 && raws[i].payload_size < 64
            && raws[i].frame_type <= 3 && raws[i].transfer_kind <= 2
}

/// Calls `CyphalMiddleware::<64>::try_read`, which cuts the batch into
/// fragments of 72 bytes and reads identifier, length, tail byte and routing
/// properties from each. Where a data length code is zero, the payload's
/// length, which is the fragment's length without the tail byte, underflows
/// and the call panics; such batches are left out. The call fails only on a
/// batch that is not a whole number of fragments, so on the batches taken
/// here it gives one packet for each fragment, each with a buffer of 64
/// bytes of which at most 63 count, a frame type that is one of four and a
/// transfer kind that is one of three. The result is handed on field by
/// field, the enumerations as their variants' numbers.
#[verifier::external_body]
fn try_read(node_id: u8, data: &[u8]) -> (r: Option<Vec<RawPacket>>)
    requires
        decodable(data@),
    ensures
        r.is_some(),
        match r {
            Some(raws) => raw_packets(node_id, data@) == Some(raw_views(raws@)) && raws@.len() == data@.len()
                / 72 && well_formed_raws(raw_views(raws@)),
            None => raw_packets(node_id, data@).is_none(),
        },
{
    match CyphalMiddleware::<64>::new(node_id).try_read(data) {
        Ok(packets) => Some(packets.iter().map(|p| RawPacket {
            xid: p.xid,
            payload: p.payload.to_vec(),
            payload_size: p.payload_size,
            frame_type: p.status.frame_type as u8,
            priority: p.props.priority as u8,
            transfer_kind: p.props.transfer_kind as u8,
            transfer_id: p.props.transfer_id,
            port_id: p.props.port_id,
            source_node_id: p.props.source_node_id,
            destination_node_id: p.props.destination_node_id,
        }).collect()),
        Err(_) => None,
    }
}

/// Every fragment has a buffer of 64 bytes, the maximum transfer unit, of
/// which between 1 and 64 count.
pub open spec fn within_mtu(out: Seq<TxPacketView>) -> bool {
    forall|i: int|
        0 <= i < out.len() ==> (#[trigger] out[i]).payload.len() == 64 && 1 <= out[i].payload_size <= 64
}

/// Calls `CyphalMiddleware::<64>::create_message_data` on a middleware made
/// for `node_id` and set to `transfer_id`. The call builds the identifier
/// and cuts the payload into fragments, the last of which ends in the
/// checksum; it fails where the middleware rejects the identifiers. Each
/// fragment it gives has a buffer of 64 bytes and a length, tail byte
/// included, between 1 and 64.
#[verifier::external_body]
fn create_message_data(node_id: u8, transfer_id: u8, subject_id: u16, payload: &[u8]) -> (r: Option<Vec<TxPacket>>)
    ensures
        match r {
            Some(out) => message_fragments(node_id, transfer_id, subject_id, payload@) == Some(tx_views(out@)) && within_mtu(
                tx_views(out@),
            ),
            None => message_fragments(node_id, transfer_id, subject_id, payload@).is_none(),
        },
{
    let mut middleware = CyphalMiddleware::<64>::new(node_id);
    middleware.transfer_id = transfer_id;
    match middleware.create_message_data(subject_id, payload, payload.len()) {
        Ok(packets) => Some(packets.into_iter().map(|p| TxPacket {
            xid: p.xid,
            payload: p.payload.to_vec(),
            payload_size: p.payload_size,
        }).collect()),
        Err(_) => None,
    }
}

/// Calls `CyphalMiddleware::<64>::create_request_data`, as
/// [`create_message_data`] does for messages, addressed to the node `channel`.
#[verifier::external_body]
fn create_request_data(node_id: u8, transfer_id: u8, channel: u8, service_id: u16, payload: &[u8]) -> (r: Option<Vec<TxPacket>>)
    ensures
        match r {
            Some(out) => request_fragments(node_id, transfer_id, channel, service_id, payload@) == Some(tx_views(out@)) && within_mtu(
                tx_views(out@),
            ),
            None => request_fragments(node_id, transfer_id, channel, service_id, payload@).is_none(),
        },
{
    let mut middleware = CyphalMiddleware::<64>::new(node_id);
    middleware.transfer_id = transfer_id;
    match middleware.create_request_data(channel, service_id, payload, payload.len()) {
        Ok(packets) => Some(packets.into_iter().map(|p| TxPacket {
            xid: p.xid,
            payload: p.payload.to_vec(),
            payload_size: p.payload_size,
        }).collect()),
        Err(_) => None,
    }
}

/// Calls `CyphalMiddleware::<64>::create_response_data`, as
/// [`create_message_data`] does for messages, addressed to the node `channel`.
#[verifier::external_body]
fn create_response_data(node_id: u8, transfer_id: u8, channel: u8, service_id: u16, payload: &[u8]) -> (r: Option<Vec<TxPacket>>)
    ensures
        match r {
            Some(out) => response_fragments(node_id, transfer_id, channel, service_id, payload@) == Some(tx_views(out@)) && within_mtu(
                tx_views(out@),
            ),
            None => response_fragments(node_id, transfer_id, channel, service_id, payload@).is_none(),
        },
{
    let mut middleware = CyphalMiddleware::<64>::new(node_id);
    middleware.transfer_id = transfer_id;
    match middleware.create_response_data(channel, service_id, payload, payload.len()) {
        Ok(packets) => Some(packets.into_iter().map(|p| TxPacket {
            xid: p.xid,
            payload: p.payload.to_vec(),
            payload_size: p.payload_size,
        }).collect()),
        Err(_) => None,
    }
}

/// The payload that names a key: the number of its bytes, cut to one byte,
/// and the bytes themselves.
pub open spec fn key_payload(key: &str) -> Seq<u8> {
    seq![key.spec_bytes().len() as u8] + key.spec_bytes()
}

/// Calls `Str::serialize` of `cands_presentation`, which writes the length
/// of the string as one byte and the string's bytes after it.
#[verifier::external_body]
pub(crate) fn str_serialize(key: &str) -> (r: Vec<u8>)
    ensures
        r@ == key_payload(key),
{
    Str::serialize(key)
}

/// Kind of outgoing transfer.
#[derive(Clone, Copy, Debug, PartialEq, Eq, Structural)]
pub enum Outgoing {
    /// A message on a subject, to whoever listens.
    Message,
    /// A request to the node `channel`.
    Request { channel: u8 },
    /// A response to the node `channel`.
    Response { channel: u8 },
}

/// The fragments that the middleware makes of an outgoing transfer.
pub open spec fn fragments(
    node_id: u8,
    transfer_id: u8,
    kind: Outgoing,
    port_id: u16,
    payload: Seq<u8>,
) -> Option<Seq<TxPacketView>> {
    match kind {
        Outgoing::Message => message_fragments(node_id, transfer_id, port_id, payload),
        Outgoing::Request { channel } => request_fragments(node_id, transfer_id, channel, port_id, payload),
        Outgoing::Response { channel } => response_fragments(node_id, transfer_id, channel, port_id, payload),
    }
}

/// Has the middleware split an outgoing transfer into fragments.
pub fn encode(node_id: u8, transfer_id: u8, kind: Outgoing, port_id: u16, payload: &[u8]) -> (r: Option<
    Vec<TxPacket>,
>)
    ensures
        match r {
            Some(out) => fragments(node_id, transfer_id, kind, port_id, payload@) == Some(tx_views(out@))
                && within_mtu(tx_views(out@)),
            None => fragments(node_id, transfer_id, kind, port_id, payload@).is_none(),
        },
{
    match kind {
        Outgoing::Message => create_message_data(node_id, transfer_id, port_id, payload),
        Outgoing::Request { channel } => create_request_data(node_id, transfer_id, channel, port_id, payload),
        Outgoing::Response { channel } => create_response_data(
            node_id,
            transfer_id,
            channel,
            port_id,
            payload,
        ),
    }
}

/// The role that a frame type code stands for.
pub open spec fn role_of(code: u8) -> Option<FrameRole> {
    if code == 0 {
        Some(FrameRole::Single)
    } else if code == 1 {
        Some(FrameRole::Start)
    } else if code == 2 {
        Some(FrameRole::End)
    } else if code == 3 {
        Some(FrameRole::Continuation)
    } else {
        None
    }
}

/// The transfer kind that a code stands for.
pub open spec fn kind_of(code: u8) -> Option<TransferKind> {
    if code == 0 {
        Some(TransferKind::Message)
    } else if code == 1 {
        Some(TransferKind::Response)
    } else if code == 2 {
        Some(TransferKind::Request)
    } else {
        None
    }
}

/// The packet that a raw packet stands for, where its codes are known.
pub open spec fn typed(raw: RawPacketView) -> Option<PacketView> {
    match (role_of(raw.frame_type), kind_of(raw.transfer_kind)) {
        (Some(role), Some(transfer_kind)) => Some(
            PacketView {
                xid: raw.xid,
                payload: raw.payload,
                payload_size: raw.payload_size,
                props: Props {
                    priority: raw.priority,
                    transfer_kind,
                    transfer_id: raw.transfer_id,
                    port_id: raw.port_id,
                    source_node_id: raw.source_node_id,
                    destination_node_id: raw.destination_node_id,
                },
                role,
            },
        ),
        _ => None,
    }
}

/// The packets that a batch of raw packets stands for, where all codes are known.
pub open spec fn typed_all(raws: Seq<RawPacketView>) -> Option<Seq<PacketView>> {
    if forall|i: int| 0 <= i < raws.len() ==> (#[trigger] typed(raws[i])).is_some() {
        Some(Seq::new(raws.len(), |i: int| typed(raws[i]).unwrap()))
    } else {
        None
    }
}

/// The packets that a raw receive batch decodes to; `None` where the batch is rejected.
pub open spec fn parsed(node_id: u8, data: Seq<u8>) -> Option<Seq<PacketView>> {
    if !decodable(data) {
        None
    } else {
        match raw_packets(node_id, data) {
            Some(raws) => typed_all(raws),
            None => None,
        }
    }
}

/// Turns the decoder's codes into a role and a transfer kind.
pub fn classify(raw: &RawPacket) -> (r: Option<Packet>)
    ensures
        match r {
            Some(p) => typed(raw@) == Some(p@),
            None => typed(raw@).is_none(),
        },
{
    let role = if raw.frame_type == 0 {
        FrameRole::Single
    } else if raw.frame_type == 1 {
        FrameRole::Start
    } else if raw.frame_type == 2 {
        FrameRole::End
    } else if raw.frame_type == 3 {
        FrameRole::Continuation
    } else {
        return None;
    };
    let transfer_kind = if raw.transfer_kind == 0 {
        TransferKind::Message
    } else if raw.transfer_kind == 1 {
        TransferKind::Response
    } else if raw.transfer_kind == 2 {
        TransferKind::Request
    } else {
        return None;
    };
    let mut payload: Vec<u8> = Vec::new();
    append_bytes(&mut payload, &raw.payload, raw.payload.len());
    assert(payload@ =~= raw.payload@);
    Some(
        Packet {
            xid: raw.xid,
            payload,
            payload_size: raw.payload_size,
            props: Props {
                priority: raw.priority,
                transfer_kind,
                transfer_id: raw.transfer_id,
                port_id: raw.port_id,
                source_node_id: raw.source_node_id,
                destination_node_id: raw.destination_node_id,
            },
            role,
        },
    )
}

/// Tells whether the decoder can take the raw batch.
pub fn is_decodable(data: &[u8]) -> (ok: bool)
    ensures
        ok == decodable(data@),
{
    if data.len() % RAW_FRAME_LEN != 0 {
        return false;
    }
    let count: usize = data.len() / RAW_FRAME_LEN;
    let mut k: usize = 0;
    while k < count
        invariant
            k <= count,
            count == data@.len() / 72,
            data@.len() % 72 == 0,
            data@.len() <= usize::MAX,
            forall|j: int| 0 <= j < k ==> #[trigger] raw_dlc(data@, j) != 0,
        decreases count - k,
    {
        assert(k * 72 + 6 < data@.len()) by (nonlinear_arith)
            requires
                k < count,
                count == data@.len() / 72,
                data@.len() % 72 == 0,
        ;
        if data[k * RAW_FRAME_LEN + RAW_DLC_OFFSET] & 0x0f == 0 {
            assert(raw_dlc(data@, k as int) == 0);
            return false;
        }
        k += 1;
    }
    true
}

/// Turns the decoder's codes into roles and transfer kinds for a whole
/// batch; one unknown code rejects the batch.
pub fn classify_all(raws: &Vec<RawPacket>) -> (r: Option<Vec<Packet>>)
    ensures
        match r {
            Some(packets) => typed_all(raw_views(raws@)) == Some(packet_views(packets@)),
            None => typed_all(raw_views(raws@)).is_none(),
        },
{
    let ghost rv = raw_views(raws@);
    let mut packets: Vec<Packet> = Vec::new();
    let mut i: usize = 0;
    while i < raws.len()
        invariant
            i <= raws@.len(),
            rv == raw_views(raws@),
            packets@.len() == i,
            forall|j: int| 0 <= j < i ==> #[trigger] typed(rv[j]) == Some(packets@[j]@),
        decreases raws@.len() - i,
    {
        match classify(&raws[i]) {
            Some(p) => {
                packets.push(p);
            },
            None => {
                assert(typed(rv[i as int]).is_none());
                return None;
            },
        }
        i += 1;
    }
    assert(forall|j: int| 0 <= j < rv.len() ==> (#[trigger] typed(rv[j])).is_some());
    assert(packet_views(packets@) =~= typed_all(rv).unwrap());
    Some(packets)
}

/// Each packet has a buffer of 64 bytes, of which fewer than 64 count.
pub open spec fn within_buffer(packets: Seq<PacketView>) -> bool {
    forall|i: int|
        0 <= i < packets.len() ==> (#[trigger] packets[i]).payload.len() == 64 && packets[i].payload_size
            < 64
}

/// Decodes a raw receive batch into packets, one for each fragment. A batch
/// is rejected exactly where the decoder cannot take it.
pub fn decode(node_id: u8, data: &[u8]) -> (r: Option<Vec<Packet>>)
    ensures
        r.is_some() == decodable(data@),
        match r {
            Some(packets) => parsed(node_id, data@) == Some(packet_views(packets@)) && packets@.len()
                == data@.len() / 72 && within_buffer(packet_views(packets@)),
            None => parsed(node_id, data@).is_none(),
        },
{
    if !is_decodable(data) {
        return None;
    }
    match try_read(node_id, data) {
        Some(raws) => {
            proof {
                let rv = raw_views(raws@);
                assert forall|i: int| 0 <= i < rv.len() implies (#[trigger] typed(rv[i])).is_some() by {
                    assert(rv[i].frame_type <= 3 && rv[i].transfer_kind <= 2);
                }
            }
            let r = classify_all(&raws);
            proof {
                let rv = raw_views(raws@);
                let pv = typed_all(rv).unwrap();
                assert forall|i: int| 0 <= i < pv.len() implies (#[trigger] pv[i]).payload.len() == 64
                    && pv[i].payload_size < 64 by {
                    assert(rv[i].payload.len() == 64);
                }
            }
            r
        },
        None => None,
    }
}

} // verus!
