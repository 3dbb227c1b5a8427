//! The frame assembler as a state machine: the two queues as sequences, and
//! the transition that each decoded packet causes.
//!
//! A second start fragment for a key that is still growing replaces the stale
//! entry: the sender has begun again, and what it sent before is discarded.
//! An end fragment too short to hold a checksum counts as a failed checksum.

use vstd::prelude::*;
use crate::frame::{FrameRole, FrameView, PacketView};
use crate::integrity::checksum_bytes;

verus! {

/// A multi-fragment message failed its checksum and was discarded.
#[derive(Clone, Copy, Debug, PartialEq, Eq, Structural)]
pub struct IntegrityError {
    pub identifier: u32,
    pub port_id: u16,
}

/// What became of one packet.
#[derive(Clone, Copy, Debug, PartialEq, Eq, Structural)]
pub enum Outcome {
    /// A single-fragment message went to the complete queue.
    Delivered,
    /// A start fragment opened a new entry.
    Started,
    /// A start fragment replaced a stale entry of the same key.
    Restarted,
    /// A continuation fragment was appended to its entry.
    Appended,
    /// An end fragment closed its entry, which went to the complete queue.
    Completed,
    /// An end fragment closed its entry with a wrong checksum; the entry is gone.
    Corrupt,
    /// A continuation or end fragment found no entry and was dropped.
    Orphan,
}

/// The two queues as mathematical sequences, oldest first.
pub ghost struct Fifos {
    pub complete: Seq<FrameView>,
    pub incomplete: Seq<FrameView>,
}

/// Entry `i` of `s` exists and has the key `(xid, port_id)`.
pub open spec fn entry_at(s: Seq<FrameView>, xid: u32, port_id: u16, i: int) -> bool {
    0 <= i < s.len() && s[i].xid == xid && s[i].props.port_id == port_id
}

/// Some entry of `s` has the key `(xid, port_id)`.
pub open spec fn has_entry(s: Seq<FrameView>, xid: u32, port_id: u16) -> bool {
    exists|i: int| entry_at(s, xid, port_id, i)
}

/// The place of the entry with the key `(xid, port_id)`, where there is one.
pub open spec fn entry_index(s: Seq<FrameView>, xid: u32, port_id: u16) -> int {
    choose|i: int| entry_at(s, xid, port_id, i)
}

/// Two entries have the same key.
pub open spec fn same_key(a: FrameView, b: FrameView) -> bool {
    a.xid == b.xid && a.props.port_id == b.props.port_id
}

/// No two entries of `s` share a key.
pub open spec fn unique_keys(s: Seq<FrameView>) -> bool {
    forall|i: int, j: int| 0 <= i < j < s.len() ==> !same_key(#[trigger] s[i], #[trigger] s[j])
}

/// The frame that a single-fragment message becomes: the packet as it came.
pub open spec fn whole(p: PacketView) -> FrameView {
    FrameView { xid: p.xid, payload: p.payload, payload_size: p.payload_size, props: p.props }
}

/// The entry that a start fragment opens.
pub open spec fn opened(p: PacketView) -> FrameView {
    FrameView { xid: p.xid, payload: p.data(), payload_size: p.data_len() as usize, props: p.props }
}

/// An entry after `bytes` were appended to it.
pub open spec fn grown(e: FrameView, bytes: Seq<u8>) -> FrameView {
    FrameView {
        xid: e.xid,
        payload: e.payload + bytes,
        payload_size: (e.payload.len() + bytes.len()) as usize,
        props: e.props,
    }
}

/// The bytes of an end fragment that belong to the message: all but the checksum.
pub open spec fn end_body(p: PacketView) -> Seq<u8> {
    p.data().take(p.data_len() - 2)
}

/// The end fragment `p` holds a checksum, and it is `sum`.
pub open spec fn closes_with(p: PacketView, sum: (u8, u8)) -> bool {
    p.data_len() >= 2 && sum == (p.data()[p.data_len() - 2], p.data()[p.data_len() - 1])
}

/// The end fragment `p` holds a checksum, and it is the checksum of the
/// entry's payload followed by the fragment's own bytes.
pub open spec fn end_valid(e: FrameView, p: PacketView) -> bool {
    closes_with(p, checksum_bytes(e.payload + end_body(p)))
}

/// The payload that the packet `p` would complete in state `st`: for an end
/// fragment that finds its entry and holds a checksum, the entry's payload
/// followed by the fragment's own bytes; for any other packet, nothing.
pub open spec fn closing_payload(st: Fifos, p: PacketView) -> Seq<u8> {
    if p.role == FrameRole::End && has_entry(st.incomplete, p.xid, p.props.port_id) && p.data_len() >= 2 {
        st.incomplete[entry_index(st.incomplete, p.xid, p.props.port_id)].payload + end_body(p)
    } else {
        Seq::empty()
    }
}

/// What becomes of packet `p` in state `st`, where `sum` is the checksum of
/// the payload that it would complete.
pub open spec fn outcome_given(st: Fifos, p: PacketView, sum: (u8, u8)) -> Outcome {
    let found = has_entry(st.incomplete, p.xid, p.props.port_id);
    match p.role {
        FrameRole::Single => Outcome::Delivered,
        FrameRole::Start => if found {
            Outcome::Restarted
        } else {
            Outcome::Started
        },
        FrameRole::Continuation => if found {
            Outcome::Appended
        } else {
            Outcome::Orphan
        },
        FrameRole::End => if !found {
            Outcome::Orphan
        } else if closes_with(p, sum) {
            Outcome::Completed
        } else {
            Outcome::Corrupt
        },
    }
}

/// The state after packet `p` was taken in state `st`, where `sum` is the
/// checksum of the payload that it would complete.
pub open spec fn step_given(st: Fifos, p: PacketView, sum: (u8, u8)) -> Fifos {
    let i = entry_index(st.incomplete, p.xid, p.props.port_id);
    let e = st.incomplete[i];
    match outcome_given(st, p, sum) {
        Outcome::Delivered => Fifos { complete: st.complete.push(whole(p)), incomplete: st.incomplete },
        Outcome::Started => Fifos { complete: st.complete, incomplete: st.incomplete.push(opened(p)) },
        Outcome::Restarted => Fifos {
            complete: st.complete,
            incomplete: st.incomplete.remove(i).push(opened(p)),
        },
        Outcome::Appended => Fifos {
            complete: st.complete,
            incomplete: st.incomplete.update(i, grown(e, p.data())),
        },
        Outcome::Completed => Fifos {
            complete: st.complete.push(grown(e, end_body(p))),
            incomplete: st.incomplete.remove(i),
        },
        Outcome::Corrupt => Fifos { complete: st.complete, incomplete: st.incomplete.remove(i) },
        Outcome::Orphan => st,
    }
}

/// What becomes of packet `p` in state `st`.
pub open spec fn outcome(st: Fifos, p: PacketView) -> Outcome {
    outcome_given(st, p, checksum_bytes(closing_payload(st, p)))
}

/// The state after packet `p` was taken in state `st`.
pub open spec fn step(st: Fifos, p: PacketView) -> Fifos {
    step_given(st, p, checksum_bytes(closing_payload(st, p)))
}

/// The state after a batch of packets was taken, one after the other.
pub open spec fn run(st: Fifos, ps: Seq<PacketView>) -> Fifos
    decreases ps.len(),
{
    if ps.len() == 0 {
        st
    } else {
        step(run(st, ps.drop_last()), ps.last())
    }
}

/// What becomes of each packet of a batch, in the order of the packets.
pub open spec fn outcomes(st: Fifos, ps: Seq<PacketView>) -> Seq<Outcome>
    decreases ps.len(),
{
    if ps.len() == 0 {
        Seq::empty()
    } else {
        outcomes(st, ps.drop_last()).push(outcome(run(st, ps.drop_last()), ps.last()))
    }
}

/// The integrity failures that a batch causes, in the order of the packets.
pub open spec fn failures(st: Fifos, ps: Seq<PacketView>) -> Seq<IntegrityError>
    decreases ps.len(),
{
    if ps.len() == 0 {
        Seq::empty()
    } else {
        let before = failures(st, ps.drop_last());
        if outcome(run(st, ps.drop_last()), ps.last()) == Outcome::Corrupt {
            before.push(
                (IntegrityError { identifier: ps.last().xid, port_id: ps.last().props.port_id }),
            )
        } else {
            before
        }
    }
}

/// The frame is on one of the ports.
pub open spec fn on_ports(ports: Seq<u16>) -> spec_fn(FrameView) -> bool {
    |f: FrameView| ports.contains(f.props.port_id)
}

/// The frame is on none of the ports.
pub open spec fn off_ports(ports: Seq<u16>) -> spec_fn(FrameView) -> bool {
    |f: FrameView| !ports.contains(f.props.port_id)
}

} // verus!
