//! The data that travels through the session layer: decoded packets on their
//! way in, reassembled frames waiting for a consumer, fragments on their way out.

use vstd::prelude::*;

verus! {

/// Largest number of bytes that one CAN-FD fragment carries.
pub const MTU_CAN_FD: usize = 64;

/// Number of checksum bytes that close the last fragment of a multi-fragment message.
pub const CRC_SIZE_BYTES: usize = 2;

/// Place of a fragment within its message.
#[derive(Clone, Copy, Debug, PartialEq, Eq, Structural)]
pub enum FrameRole {
    /// The whole message in one fragment.
    Single,
    /// The first fragment of a longer message.
    Start,
    /// A fragment between the first and the last.
    Continuation,
    /// The last fragment; its final two bytes are the checksum.
    End,
}

/// Kind of transfer that a fragment belongs to.
#[derive(Clone, Copy, Debug, PartialEq, Eq, Structural)]
pub enum TransferKind {
    Message,
    Response,
    Request,
}

/// Routing properties that the decoder reads from a fragment's identifier and tail byte.
#[derive(Clone, Copy, Debug, PartialEq, Eq, Structural)]
pub struct Props {
    /// Priority level, 0 (highest) to 7, or 8 where none is defined.
    pub priority: u8,
    pub transfer_kind: TransferKind,
    pub transfer_id: u8,
    pub port_id: u16,
    pub source_node_id: u8,
    pub destination_node_id: u8,
}

/// A reassembly unit: a message, complete or still growing.
#[derive(Clone, Debug, PartialEq, Eq)]
pub struct Frame {
    /// Bus identifier; compared for equality only.
    pub xid: u32,
    pub payload: Vec<u8>,
    pub payload_size: usize,
    pub props: Props,
}

/// Mathematical value of a [`Frame`].
pub ghost struct FrameView {
    pub xid: u32,
    pub payload: Seq<u8>,
    pub payload_size: usize,
    pub props: Props,
}

impl View for Frame {
    type V = FrameView;

    open spec fn view(&self) -> FrameView {
        FrameView {
            xid: self.xid,
            payload: self.payload@,
            payload_size: self.payload_size,
            props: self.props,
        }
    }
}

/// One decoded fragment, as the frame assembler takes it.
#[derive(Clone, Debug, PartialEq, Eq)]
pub struct Packet {
    pub xid: u32,
    /// The fragment's buffer; its first `payload_size` bytes count.
    pub payload: Vec<u8>,
    pub payload_size: usize,
    pub props: Props,
    pub role: FrameRole,
}

/// Mathematical value of a [`Packet`].
pub ghost struct PacketView {
    pub xid: u32,
    pub payload: Seq<u8>,
    pub payload_size: usize,
    pub props: Props,
    pub role: FrameRole,
}

impl View for Packet {
    type V = PacketView;

    open spec fn view(&self) -> PacketView {
        PacketView {
            xid: self.xid,
            payload: self.payload@,
            payload_size: self.payload_size,
            props: self.props,
            role: self.role,
        }
    }
}

impl PacketView {
    /// Number of bytes of the buffer that count: `payload_size`, held to the buffer's length.
    pub open spec fn data_len(self) -> int {
        if self.payload_size <= self.payload.len() {
            self.payload_size as int
        } else {
            self.payload.len() as int
        }
    }

    /// The bytes that the fragment carries.
    pub open spec fn data(self) -> Seq<u8> {
        self.payload.take(self.data_len())
    }
}

impl Packet {
    /// Number of bytes that the fragment carries.
    pub fn data_len(&self) -> (n: usize)
        ensures
            n == self@.data_len(),
            n <= self.payload@.len(),
    {
        if self.payload_size <= self.payload.len() {
            self.payload_size
        } else {
            self.payload.len()
        }
    }
}

/// Views of a sequence of frames, in order.
pub open spec fn frame_views(frames: Seq<Frame>) -> Seq<FrameView> {
    Seq::new(frames.len(), |i: int| frames[i]@)
}

/// Views of a sequence of packets, in order.
pub open spec fn packet_views(packets: Seq<Packet>) -> Seq<PacketView> {
    Seq::new(packets.len(), |i: int| packets[i]@)
}

/// One outbound fragment, ready for the driver.
#[derive(Clone, Debug, PartialEq, Eq)]
pub struct TxPacket {
    pub xid: u32,
    pub payload: Vec<u8>,
    pub payload_size: usize,
}

/// Mathematical value of a [`TxPacket`].
pub ghost struct TxPacketView {
    pub xid: u32,
    pub payload: Seq<u8>,
    pub payload_size: usize,
}

impl View for TxPacket {
    type V = TxPacketView;

    open spec fn view(&self) -> TxPacketView {
        TxPacketView { xid: self.xid, payload: self.payload@, payload_size: self.payload_size }
    }
}

/// Views of a sequence of outbound fragments, in order.
pub open spec fn tx_views(packets: Seq<TxPacket>) -> Seq<TxPacketView> {
    Seq::new(packets.len(), |i: int| packets[i]@)
}

/// Appends the first `n` bytes of `src` to `dst`.
pub(crate) fn append_bytes(dst: &mut Vec<u8>, src: &Vec<u8>, n: usize)
    requires
        n <= src@.len(),
    ensures
        final(dst)@ == old(dst)@ + src@.take(n as int),
{
    let mut i: usize = 0;
    while i < n
        invariant
            i <= n,
            n <= src@.len(),
            dst@ == old(dst)@ + src@.take(i as int),
        decreases n - i,
    {
        dst.push(src[i]);
        i += 1;
        assert(dst@ =~= old(dst)@ + src@.take(i as int));
    }
}

} // verus!
