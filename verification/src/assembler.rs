//! The frame assembler: two queues, one of complete messages waiting for a
//! consumer and one of multi-fragment messages still growing.

use vstd::prelude::*;
use crate::frame::{append_bytes, frame_views, packet_views, Frame, FrameRole, FrameView, Packet, CRC_SIZE_BYTES};
use crate::integrity::checksum;
use crate::laws::{law_keys_stay_unique, lemma_entry_found};
pub use crate::transition::{IntegrityError, Outcome};
use crate::transition::{
    closing_payload, end_body, entry_at, failures, grown, has_entry, off_ports, on_ports, opened, outcome,
    outcome_given, outcomes, run, step, step_given, unique_keys, whole, Fifos,
};

verus! {

/// The frame assembler.
pub struct Assembler {
    complete: Vec<Frame>,
    incomplete: Vec<Frame>,
}

impl View for Assembler {
    type V = Fifos;

    closed spec fn view(&self) -> Fifos {
        Fifos { complete: frame_views(self.complete@), incomplete: frame_views(self.incomplete@) }
    }
}

impl Assembler {
    /// No two growing messages share a key.
    pub open spec fn wf(&self) -> bool {
        unique_keys(self@.incomplete)
    }

    /// An assembler with both queues empty.
    pub fn new() -> (r: Self)
        ensures
            r.wf(),
            r@.complete == Seq::<FrameView>::empty(),
            r@.incomplete == Seq::<FrameView>::empty(),
    {
        let r = Assembler { complete: Vec::new(), incomplete: Vec::new() };
        assert(r@.complete =~= Seq::<FrameView>::empty());
        assert(r@.incomplete =~= Seq::<FrameView>::empty());
        r
    }

    /// Empties both queues.
    pub fn reset(&mut self)
        ensures
            final(self).wf(),
            final(self)@.complete == Seq::<FrameView>::empty(),
            final(self)@.incomplete == Seq::<FrameView>::empty(),
    {
        self.complete.clear();
        self.incomplete.clear();
        assert(self@.complete =~= Seq::<FrameView>::empty());
        assert(self@.incomplete =~= Seq::<FrameView>::empty());
    }

    /// The complete messages, oldest first.
    pub fn complete(&self) -> (r: &Vec<Frame>)
        ensures
            frame_views(r@) == self@.complete,
    {
        &self.complete
    }

    /// The messages still growing, oldest first.
    pub fn incomplete(&self) -> (r: &Vec<Frame>)
        ensures
            frame_views(r@) == self@.incomplete,
    {
        &self.incomplete
    }

    /// Looks for the growing message with the key `(xid, port_id)`.
    fn find(&self, xid: u32, port_id: u16) -> (r: Option<usize>)
        ensures
            match r {
                Some(i) => i < self.incomplete@.len() && entry_at(self@.incomplete, xid, port_id, i as int),
                None => !has_entry(self@.incomplete, xid, port_id),
            },
    {
        let mut i: usize = 0;
        while i < self.incomplete.len()
            invariant
                i <= self.incomplete@.len(),
                forall|j: int| 0 <= j < i ==> !entry_at(self@.incomplete, xid, port_id, j),
            decreases self.incomplete@.len() - i,
        {
            if self.incomplete[i].xid == xid && self.incomplete[i].props.port_id == port_id {
                return Some(i);
            }
            i += 1;
        }
        None
    }

    /// Builds the payload that the packet would complete: for an end
    /// fragment that finds its entry and holds a checksum, the entry's
    /// payload followed by the fragment's own bytes; for any other packet,
    /// nothing. The queues stay as they are.
    pub fn closing_payload(&self, packet: &Packet) -> (payload: Vec<u8>)
        requires
            self.wf(),
        ensures
            payload@ == closing_payload(self@, packet@),
    {
        let mut payload: Vec<u8> = Vec::new();
        let n = packet.data_len();
        match packet.role {
            FrameRole::End => {
                if n >= CRC_SIZE_BYTES {
                    match self.find(packet.xid, packet.props.port_id) {
                        Some(i) => {
                            proof {
                                lemma_entry_found(
                                    self@.incomplete,
                                    packet.xid,
                                    packet.props.port_id,
                                    i as int,
                                );
                            }
                            let entry = &self.incomplete[i];
                            append_bytes(&mut payload, &entry.payload, entry.payload.len());
                            append_bytes(&mut payload, &packet.payload, n - CRC_SIZE_BYTES);
                            assert(packet.payload@.take(n - 2) =~= end_body(packet@));
                            assert(payload@ =~= entry.payload@ + end_body(packet@));
                        },
                        None => {},
                    }
                }
            },
            _ => {},
        }
        payload
    }

    /// Takes one decoded packet and says what became of it, where `sum` is
    /// the checksum of the payload that the packet would complete. Only an
    /// end fragment that finds its entry looks at `sum`.
    pub fn accept_given(&mut self, packet: &Packet, sum: [u8; 2]) -> (o: Outcome)
        requires
            old(self).wf(),
        ensures
            final(self).wf(),
            final(self)@ == step_given(old(self)@, packet@, (sum[0], sum[1])),
            o == outcome_given(old(self)@, packet@, (sum[0], sum[1])),
    {
        let n = packet.data_len();
        let ghost before = self@;
        let ghost p = packet@;
        let found = self.find(packet.xid, packet.props.port_id);
        proof {
            if let Some(i) = found {
                lemma_entry_found(before.incomplete, p.xid, p.props.port_id, i as int);
            }
            law_keys_stay_unique(before, p, (sum[0], sum[1]));
        }
        match packet.role {
            FrameRole::Single => {
                let mut payload: Vec<u8> = Vec::new();
                append_bytes(&mut payload, &packet.payload, packet.payload.len());
                assert(payload@ =~= packet.payload@);
                self.complete.push(
                    Frame {
                        xid: packet.xid,
                        payload,
                        payload_size: packet.payload_size,
                        props: packet.props,
                    },
                );
                assert(self@.complete =~= before.complete.push(whole(p)));
                Outcome::Delivered
            },
            FrameRole::Start => {
                let mut payload: Vec<u8> = Vec::new();
                append_bytes(&mut payload, &packet.payload, n);
                assert(payload@ =~= p.data());
                let fresh = Frame { xid: packet.xid, payload, payload_size: n, props: packet.props };
                match found {
                    Some(i) => {
                        self.incomplete.remove(i);
                        self.incomplete.push(fresh);
                        assert(self@.incomplete =~= before.incomplete.remove(i as int).push(opened(p)));
                        Outcome::Restarted
                    },
                    None => {
                        self.incomplete.push(fresh);
                        assert(self@.incomplete =~= before.incomplete.push(opened(p)));
                        Outcome::Started
                    },
                }
            },
            FrameRole::Continuation => {
                match found {
                    Some(i) => {
                        let mut e = self.incomplete.remove(i);
                        append_bytes(&mut e.payload, &packet.payload, n);
                        e.payload_size = e.payload.len();
                        self.incomplete.insert(i, e);
                        assert(self@.incomplete =~= before.incomplete.update(
                            i as int,
                            grown(before.incomplete[i as int], p.data()),
                        ));
                        Outcome::Appended
                    },
                    None => Outcome::Orphan,
                }
            },
            FrameRole::End => {
                match found {
                    Some(i) => {
                        let mut e = self.incomplete.remove(i);
                        assert(self@.incomplete =~= before.incomplete.remove(i as int));
                        if n >= CRC_SIZE_BYTES && sum[0] == packet.payload[n - 2] && sum[1] == packet.payload[n
                            - 1] {
                            append_bytes(&mut e.payload, &packet.payload, n - CRC_SIZE_BYTES);
                            e.payload_size = e.payload.len();
                            assert(packet.payload@.take(n - 2) =~= end_body(p));
                            self.complete.push(e);
                            assert(self@.complete =~= before.complete.push(
                                grown(before.incomplete[i as int], end_body(p)),
                            ));
                            Outcome::Completed
                        } else {
                            Outcome::Corrupt
                        }
                    },
                    None => Outcome::Orphan,
                }
            },
        }
    }

    /// Takes one decoded packet and says what became of it.
    pub fn accept(&mut self, packet: &Packet) -> (o: Outcome)
        requires
            old(self).wf(),
        ensures
            final(self).wf(),
            final(self)@ == step(old(self)@, packet@),
            o == outcome(old(self)@, packet@),
    {
        let payload = self.closing_payload(packet);
        let sum = checksum(payload.as_slice());
        self.accept_given(packet, sum)
    }

    /// Copies the messages on the given ports out of the complete queue,
    /// oldest first. The queues stay as they are.
    pub fn select_ports(&self, ports: &[u16]) -> (chosen: Vec<Frame>)
        ensures
            frame_views(chosen@) == self@.complete.filter(on_ports(ports@)),
    {
        let ghost all = self@.complete;
        let ghost wanted = on_ports(ports@);
        let mut chosen: Vec<Frame> = Vec::new();
        let mut i: usize = 0;
        proof {
            reveal(Seq::filter);
            assert(all.take(0).filter(wanted) =~= Seq::<FrameView>::empty());
            assert(frame_views(chosen@) =~= Seq::<FrameView>::empty());
        }
        while i < self.complete.len()
            invariant
                i <= self.complete@.len(),
                all == frame_views(self.complete@),
                wanted == on_ports(ports@),
                frame_views(chosen@) == all.take(i as int).filter(wanted),
            decreases self.complete@.len() - i,
        {
            let ghost got = frame_views(chosen@);
            proof {
                reveal(Seq::filter);
                assert(all.take(i + 1).drop_last() =~= all.take(i as int));
                assert(all.take(i + 1).last() == all[i as int]);
            }
            let frame = &self.complete[i];
            if contains_port(ports, frame.props.port_id) {
                let mut payload: Vec<u8> = Vec::new();
                append_bytes(&mut payload, &frame.payload, frame.payload.len());
                assert(payload@ =~= frame.payload@);
                chosen.push(
                    Frame { xid: frame.xid, payload, payload_size: frame.payload_size, props: frame.props },
                );
                assert(frame_views(chosen@) =~= got.push(all[i as int]));
            }
            i += 1;
        }
        assert(all.take(i as int) =~= all);
        chosen
    }

    /// Removes from the complete queue the messages on the given ports and
    /// hands them out, oldest first. The other messages stay, in their order.
    pub fn take_ports(&mut self, ports: &[u16]) -> (taken: Vec<Frame>)
        ensures
            frame_views(taken@) == old(self)@.complete.filter(on_ports(ports@)),
            final(self)@.complete == old(self)@.complete.filter(off_ports(ports@)),
            final(self)@.incomplete == old(self)@.incomplete,
    {
        let ghost all = self@.complete;
        let ghost wanted = on_ports(ports@);
        let ghost others = off_ports(ports@);
        let mut taken: Vec<Frame> = Vec::new();
        let mut i: usize = 0;
        let ghost mut done: int = 0;
        proof {
            reveal(Seq::filter);
            assert(all.take(0).filter(wanted) =~= Seq::<FrameView>::empty());
            assert(all.take(0).filter(others) =~= Seq::<FrameView>::empty());
            assert(frame_views(taken@) =~= Seq::<FrameView>::empty());
            assert(frame_views(self.complete@).take(0) =~= Seq::<FrameView>::empty());
            assert(frame_views(self.complete@).skip(0) =~= all.skip(0));
        }
        while i < self.complete.len()
            invariant
                self@.incomplete == old(self)@.incomplete,
                wanted == on_ports(ports@),
                others == off_ports(ports@),
                0 <= done <= all.len(),
                i <= self.complete@.len(),
                self.complete@.len() - i == all.len() - done,
                frame_views(self.complete@).take(i as int) == all.take(done).filter(others),
                frame_views(self.complete@).skip(i as int) == all.skip(done),
                frame_views(taken@) == all.take(done).filter(wanted),
            decreases self.complete@.len() - i,
        {
            let ghost views = frame_views(self.complete@);
            let ghost got = frame_views(taken@);
            proof {
                reveal(Seq::filter);
                assert(views.skip(i as int)[0] == all.skip(done)[0]);
                assert(views[i as int] == all[done]);
                assert(all.take(done + 1).drop_last() =~= all.take(done));
                assert(all.take(done + 1).last() == all[done]);
            }
            if contains_port(ports, self.complete[i].props.port_id) {
                let f = self.complete.remove(i);
                taken.push(f);
                proof {
                    let now = frame_views(self.complete@);
                    assert(now =~= views.remove(i as int));
                    assert(now.take(i as int) =~= views.take(i as int));
                    assert(now.skip(i as int) =~= views.skip(i as int).skip(1));
                    assert(all.skip(done).skip(1) =~= all.skip(done + 1));
                    assert(frame_views(taken@) =~= got.push(all[done]));
                }
            } else {
                i += 1;
                proof {
                    assert(views.take(i as int) =~= views.take(i - 1).push(all[done]));
                    assert(views.skip(i as int) =~= views.skip(i - 1).skip(1));
                    assert(all.skip(done).skip(1) =~= all.skip(done + 1));
                }
            }
            proof {
                done = done + 1;
            }
        }
        proof {
            assert(all.take(done) =~= all);
            assert(frame_views(self.complete@).take(i as int) =~= frame_views(self.complete@));
        }
        taken
    }

    /// Takes a batch of decoded packets, one after the other, and says what
    /// became of each: a dropped fragment shows as `Orphan`, a replaced
    /// entry as `Restarted`, a failed checksum as `Corrupt`.
    pub fn ingest_each(&mut self, packets: &Vec<Packet>) -> (r: Vec<Outcome>)
        requires
            old(self).wf(),
        ensures
            final(self).wf(),
            final(self)@ == run(old(self)@, packet_views(packets@)),
            r@ == outcomes(old(self)@, packet_views(packets@)),
    {
        let ghost start = self@;
        let ghost pv = packet_views(packets@);
        let mut seen: Vec<Outcome> = Vec::new();
        let mut i: usize = 0;
        while i < packets.len()
            invariant
                i <= packets@.len(),
                pv == packet_views(packets@),
                self.wf(),
                self@ == run(start, pv.take(i as int)),
                seen@ == outcomes(start, pv.take(i as int)),
            decreases packets@.len() - i,
        {
            let o = self.accept(&packets[i]);
            proof {
                assert(pv.take(i + 1).drop_last() =~= pv.take(i as int));
                assert(pv.take(i + 1).last() == packets@[i as int]@);
            }
            seen.push(o);
            i += 1;
        }
        assert(pv.take(i as int) =~= pv);
        seen
    }

    /// Takes a batch of decoded packets, one after the other. A failed
    /// checksum discards that message only: the packets after it are still
    /// taken, and the first failure of the batch is reported at the end.
    pub fn ingest(&mut self, packets: &Vec<Packet>) -> (r: Result<(), IntegrityError>)
        requires
            old(self).wf(),
        ensures
            final(self).wf(),
            final(self)@ == run(old(self)@, packet_views(packets@)),
            match r {
                Ok(_) => failures(old(self)@, packet_views(packets@)).len() == 0,
                Err(e) => failures(old(self)@, packet_views(packets@)).len() > 0 && e == failures(
                    old(self)@,
                    packet_views(packets@),
                )[0],
            },
    {
        let ghost start = self@;
        let ghost pv = packet_views(packets@);
        let mut first: Option<IntegrityError> = None;
        let mut i: usize = 0;
        while i < packets.len()
            invariant
                i <= packets@.len(),
                pv == packet_views(packets@),
                self.wf(),
                self@ == run(start, pv.take(i as int)),
                match first {
                    None => failures(start, pv.take(i as int)).len() == 0,
                    Some(e) => failures(start, pv.take(i as int)).len() > 0 && e == failures(
                        start,
                        pv.take(i as int),
                    )[0],
                },
            decreases packets@.len() - i,
        {
            let packet = &packets[i];
            let o = self.accept(packet);
            proof {
                assert(pv.take(i + 1).drop_last() =~= pv.take(i as int));
                assert(pv.take(i + 1).last() == packet@);
            }
            match o {
                Outcome::Corrupt => {
                    if first.is_none() {
                        first = Some(
                            IntegrityError { identifier: packet.xid, port_id: packet.props.port_id },
                        );
                    }
                },
                _ => {},
            }
            i += 1;
        }
        assert(pv.take(i as int) =~= pv);
        match first {
            Some(e) => Err(e),
            None => Ok(()),
        }
    }
}

/// Tells whether `port_id` is among `ports`.
pub fn contains_port(ports: &[u16], port_id: u16) -> (found: bool)
    ensures
        found == ports@.contains(port_id),
{
    let mut i: usize = 0;
    while i < ports.len()
        invariant
            i <= ports@.len(),
            forall|j: int| 0 <= j < i ==> ports@[j] != port_id,
        decreases ports@.len() - i,
    {
        if ports[i] == port_id {
            return true;
        }
        i += 1;
    }
    false
}

} // verus!
