//! The interface of one node: its configuration, its session state and its
//! frame assembler, with the operations that the application calls.

use vstd::prelude::*;
use crate::assembler::{Assembler, IntegrityError};
use crate::codec::{
    decode, decodable, fragments, key_payload, parsed, str_serialize, within_buffer, within_mtu, Outgoing,
};
use crate::correlator::{judge, read_results, read_status, results, status, verdict, PendingRequest, RxData, Verdict};
use crate::frame::{frame_views, packet_views, tx_views, Frame, FrameView, Packet, TxPacket};
use crate::session::{seeded, successor, EncodeError, Session};
use crate::transition::{failures, off_ports, on_ports, run};

verus! {

/// What an interface is set up with; fixed for its lifetime.
#[derive(Clone, Copy, Debug, PartialEq, Eq, Structural)]
pub struct Config {
    /// The node's own identifier on the bus.
    pub node_id: u8,
    /// The subject on which key and value messages travel.
    pub message_subject: u16,
    /// The service on which key and value commands travel.
    pub command_service: u16,
    /// The service that sets a value and answers on the result port.
    pub set_value_service: u16,
    /// The service that asks for a value.
    pub get_value_service: u16,
    /// The port on which results and the general status arrive.
    pub result_port: u16,
    /// The result value that stands for an accepted request.
    pub accepted_code: u8,
}

/// A raw receive batch could not be turned into messages.
#[derive(Clone, Copy, Debug, PartialEq, Eq, Structural)]
pub enum LoadError {
    /// The middleware could not decode the batch; nothing was kept from it.
    Decode,
    /// A multi-fragment message failed its checksum and was discarded.
    Integrity(IntegrityError),
}

/// The ports on which keys and values arrive.
pub open spec fn key_value_ports(config: Config) -> Seq<u16> {
    seq![config.command_service, config.set_value_service, config.message_subject]
}

/// The ports that a consumer of a single port filters on.
pub open spec fn only(port_id: u16) -> Seq<u16> {
    seq![port_id]
}

/// The session layer of one node.
pub struct CANInterface {
    pub config: Config,
    pub session: Session,
    pub assembler: Assembler,
}

impl CANInterface {
    /// Session and assembler are valid.
    pub open spec fn wf(&self) -> bool {
        self.session.wf() && self.assembler.wf()
    }

    /// An interface with empty queues, its transfer identifier seeded from
    /// the time `now`, in milliseconds.
    pub fn new(config: Config, now: u128) -> (r: Self)
        ensures
            r.wf(),
            r.config == config,
            r.session.current() == seeded(now),
            r.assembler@.complete == Seq::<FrameView>::empty(),
            r.assembler@.incomplete == Seq::<FrameView>::empty(),
    {
        CANInterface { config, session: Session::new(now), assembler: Assembler::new() }
    }

    /// Begins a new session: both queues are emptied and the transfer
    /// identifier is seeded from the time `now`, in milliseconds.
    pub fn init(&mut self, now: u128)
        requires
            old(self).wf(),
        ensures
            final(self).wf(),
            final(self).config == old(self).config,
            final(self).session.current() == seeded(now),
            final(self).assembler@.complete == Seq::<FrameView>::empty(),
            final(self).assembler@.incomplete == Seq::<FrameView>::empty(),
    {
        self.reset_rx_fifo();
        self.session.reseed(now);
    }

    /// Empties both queues.
    pub fn reset_rx_fifo(&mut self)
        ensures
            final(self).config == old(self).config,
            final(self).session == old(self).session,
            final(self).assembler.wf(),
            final(self).assembler@.complete == Seq::<FrameView>::empty(),
            final(self).assembler@.incomplete == Seq::<FrameView>::empty(),
    {
        self.assembler.reset();
    }

    /// Hands out the transfer identifier for one outgoing message and moves
    /// on to the next, wrapping from 31 to 0.
    pub fn next_transfer_id(&mut self) -> (r: u8)
        requires
            old(self).wf(),
        ensures
            final(self).wf(),
            final(self).config == old(self).config,
            final(self).assembler == old(self).assembler,
            r == old(self).session.current(),
            r < 32,
            final(self).session.current() == successor(old(self).session.current()),
    {
        self.session.next_transfer_id()
    }

    /// Builds the fragments of a message on the subject `subject_id`. The
    /// caller transmits them in order and stops at the first that fails.
    pub fn build_message(&mut self, subject_id: u16, payload: &[u8]) -> (r: Result<Vec<TxPacket>, EncodeError>)
        requires
            old(self).wf(),
        ensures
            final(self).wf(),
            final(self).config == old(self).config,
            final(self).assembler == old(self).assembler,
            final(self).session.current() == successor(old(self).session.current()),
            match r {
                Ok(out) => fragments(
                    old(self).config.node_id,
                    old(self).session.current(),
                    Outgoing::Message,
                    subject_id,
                    payload@,
                ) == Some(tx_views(out@)) && within_mtu(tx_views(out@)),
                Err(_) => fragments(
                    old(self).config.node_id,
                    old(self).session.current(),
                    Outgoing::Message,
                    subject_id,
                    payload@,
                ).is_none(),
            },
    {
        self.session.build(self.config.node_id, Outgoing::Message, subject_id, payload)
    }

    /// Builds the fragments of a response on the service `service_id` to the
    /// node `channel`.
    pub fn build_response(&mut self, service_id: u16, channel: u8, payload: &[u8]) -> (r: Result<
        Vec<TxPacket>,
        EncodeError,
    >)
        requires
            old(self).wf(),
        ensures
            final(self).wf(),
            final(self).config == old(self).config,
            final(self).assembler == old(self).assembler,
            final(self).session.current() == successor(old(self).session.current()),
            match r {
                Ok(out) => fragments(
                    old(self).config.node_id,
                    old(self).session.current(),
                    (Outgoing::Response { channel }),
                    service_id,
                    payload@,
                ) == Some(tx_views(out@)) && within_mtu(tx_views(out@)),
                Err(_) => fragments(
                    old(self).config.node_id,
                    old(self).session.current(),
                    (Outgoing::Response { channel }),
                    service_id,
                    payload@,
                ).is_none(),
            },
    {
        self.session.build(self.config.node_id, Outgoing::Response { channel }, service_id, payload)
    }

    /// Builds the fragments of a request on the service `service_id` to the
    /// node `channel`.
    pub fn build_request(&mut self, service_id: u16, channel: u8, payload: &[u8]) -> (r: Result<
        Vec<TxPacket>,
        EncodeError,
    >)
        requires
            old(self).wf(),
        ensures
            final(self).wf(),
            final(self).config == old(self).config,
            final(self).assembler == old(self).assembler,
            final(self).session.current() == successor(old(self).session.current()),
            match r {
                Ok(out) => fragments(
                    old(self).config.node_id,
                    old(self).session.current(),
                    (Outgoing::Request { channel }),
                    service_id,
                    payload@,
                ) == Some(tx_views(out@)) && within_mtu(tx_views(out@)),
                Err(_) => fragments(
                    old(self).config.node_id,
                    old(self).session.current(),
                    (Outgoing::Request { channel }),
                    service_id,
                    payload@,
                ).is_none(),
            },
    {
        self.session.build(self.config.node_id, Outgoing::Request { channel }, service_id, payload)
    }

    /// Takes a batch of decoded packets, one after the other, and reports the
    /// first checksum failure of the batch, if there is one.
    pub fn ingest(&mut self, packets: &Vec<Packet>) -> (r: Result<(), IntegrityError>)
        requires
            old(self).wf(),
        ensures
            final(self).wf(),
            final(self).config == old(self).config,
            final(self).session == old(self).session,
            final(self).assembler@ == run(old(self).assembler@, packet_views(packets@)),
            match r {
                Ok(_) => failures(old(self).assembler@, packet_views(packets@)).len() == 0,
                Err(e) => failures(old(self).assembler@, packet_views(packets@)).len() > 0 && e == failures(
                    old(self).assembler@,
                    packet_views(packets@),
                )[0],
            },
    {
        self.assembler.ingest(packets)
    }

    /// Decodes a raw receive batch and takes its packets, one for each
    /// fragment. A batch that the middleware cannot decode, which is one that
    /// is not a whole number of fragments or holds a fragment without a tail
    /// byte, gives the decode error and changes nothing.
    pub fn load_frames_from_buffer(&mut self, buffer: &[u8]) -> (r: Result<(), LoadError>)
        requires
            old(self).wf(),
        ensures
            final(self).wf(),
            final(self).config == old(self).config,
            final(self).session == old(self).session,
            parsed(old(self).config.node_id, buffer@).is_some() == decodable(buffer@),
            match parsed(old(self).config.node_id, buffer@) {
                None => r == Err::<(), LoadError>(LoadError::Decode) && final(self).assembler@ == old(
                    self,
                ).assembler@,
                Some(packets) => {
                    &&& packets.len() == buffer@.len() / 72
                    &&& within_buffer(packets)
                    &&& final(self).assembler@ == run(old(self).assembler@, packets)
                    &&& match r {
                        Ok(_) => failures(old(self).assembler@, packets).len() == 0,
                        Err(e) => failures(old(self).assembler@, packets).len() > 0 && e
                            == LoadError::Integrity(failures(old(self).assembler@, packets)[0]),
                    }
                },
            },
    {
        match decode(self.config.node_id, buffer) {
            None => Err(LoadError::Decode),
            Some(packets) => match self.assembler.ingest(&packets) {
                Ok(()) => Ok(()),
                Err(e) => Err(LoadError::Integrity(e)),
            },
        }
    }

    /// Builds the fragments of a request to the node `channel` for the value
    /// of `key`, on the configured service.
    pub fn build_get_value(&mut self, channel: u8, key: &str) -> (r: Result<Vec<TxPacket>, EncodeError>)
        requires
            old(self).wf(),
        ensures
            final(self).wf(),
            final(self).config == old(self).config,
            final(self).assembler == old(self).assembler,
            final(self).session.current() == successor(old(self).session.current()),
            match r {
                Ok(out) => fragments(
                    old(self).config.node_id,
                    old(self).session.current(),
                    (Outgoing::Request { channel }),
                    old(self).config.get_value_service,
                    key_payload(key),
                ) == Some(tx_views(out@)) && within_mtu(tx_views(out@)),
                Err(_) => fragments(
                    old(self).config.node_id,
                    old(self).session.current(),
                    (Outgoing::Request { channel }),
                    old(self).config.get_value_service,
                    key_payload(key),
                ).is_none(),
            },
    {
        let payload = str_serialize(key);
        self.session.build(self.config.node_id, Outgoing::Request { channel }, self.config.get_value_service, payload.as_slice())
    }

    /// Copies the messages on the key and value ports out of the complete
    /// queue, oldest first, for the application to read their keys and
    /// values. Nothing is removed: where one of them cannot be read, all of
    /// them are still there.
    pub fn key_value_frames(&self) -> (r: Vec<Frame>)
        ensures
            frame_views(r@) == self.assembler@.complete.filter(on_ports(key_value_ports(self.config))),
    {
        let ports: Vec<u16> = vec![
            self.config.command_service,
            self.config.set_value_service,
            self.config.message_subject,
        ];
        assert(ports@ =~= key_value_ports(self.config));
        self.assembler.select_ports(ports.as_slice())
    }

    /// Removes the messages on the key and value ports from the complete
    /// queue, once the application has read them all.
    pub fn drop_key_value(&mut self)
        ensures
            final(self).assembler@.complete == old(self).assembler@.complete.filter(
                off_ports(key_value_ports(old(self).config)),
            ),
            final(self).assembler@.incomplete == old(self).assembler@.incomplete,
            final(self).config == old(self).config,
            final(self).session == old(self).session,
    {
        let ports: Vec<u16> = vec![
            self.config.command_service,
            self.config.set_value_service,
            self.config.message_subject,
        ];
        assert(ports@ =~= key_value_ports(self.config));
        let _ = self.assembler.take_ports(ports.as_slice());
    }

    /// Removes the messages on the result port from the complete queue and
    /// hands out the first byte of each that has one, oldest first; `None`
    /// where there is none.
    pub fn get_result(&mut self) -> (r: Option<Vec<RxData>>)
        ensures
            final(self).config == old(self).config,
            final(self).session == old(self).session,
            final(self).assembler@.incomplete == old(self).assembler@.incomplete,
            final(self).assembler@.complete == old(self).assembler@.complete.filter(
                off_ports(only(old(self).config.result_port)),
            ),
            match r {
                Some(found) => found@.len() > 0 && found@ == results(
                    old(self).assembler@.complete.filter(on_ports(only(old(self).config.result_port))),
                ),
                None => results(
                    old(self).assembler@.complete.filter(on_ports(only(old(self).config.result_port))),
                ).len() == 0,
            },
    {
        let ports: Vec<u16> = vec![self.config.result_port];
        assert(ports@ =~= only(self.config.result_port));
        let frames = self.assembler.take_ports(ports.as_slice());
        let found = read_results(&frames);
        if found.len() == 0 {
            None
        } else {
            Some(found)
        }
    }

    /// Removes the messages on the result port from the complete queue and
    /// hands out the status that the newest of them reports, or
    /// `STATUS_UNKNOWN`.
    pub fn get_digitalservo_general_status(&mut self) -> (r: u8)
        ensures
            final(self).config == old(self).config,
            final(self).session == old(self).session,
            final(self).assembler@.incomplete == old(self).assembler@.incomplete,
            final(self).assembler@.complete == old(self).assembler@.complete.filter(
                off_ports(only(old(self).config.result_port)),
            ),
            r == status(old(self).assembler@.complete.filter(on_ports(only(old(self).config.result_port)))),
    {
        let ports: Vec<u16> = vec![self.config.result_port];
        assert(ports@ =~= only(self.config.result_port));
        let frames = self.assembler.take_ports(ports.as_slice());
        read_status(&frames)
    }

    /// Judges a pending request at the time `now`, after newly arrived
    /// frames were loaded. While the request is pending, every message on
    /// the result port leaves the complete queue, matching or not; one
    /// result that carries the accepted code settles the request as
    /// accepted, whatever the others carry, and without one a deadline that
    /// has come settles it as timed out. A settled request stays as it is,
    /// and the queues are not touched for it.
    pub fn poll_request(&mut self, pending: &mut PendingRequest, now: u64) -> (v: Verdict)
        ensures
            v == final(pending).verdict,
            final(pending).channel == old(pending).channel,
            final(pending).deadline == old(pending).deadline,
            final(self).config == old(self).config,
            final(self).session == old(self).session,
            final(self).assembler@.incomplete == old(self).assembler@.incomplete,
            old(pending).verdict != Verdict::Pending ==> v == old(pending).verdict && final(self).assembler@
                == old(self).assembler@,
            old(pending).verdict == Verdict::Pending ==> {
                &&& final(self).assembler@.complete == old(self).assembler@.complete.filter(
                    off_ports(only(old(self).config.result_port)),
                )
                &&& v == verdict(
                    results(
                        old(self).assembler@.complete.filter(on_ports(only(old(self).config.result_port))),
                    ),
                    old(self).config.accepted_code,
                    now,
                    old(pending).deadline,
                )
                &&& forall|i: int|
                    0 <= i < final(self).assembler@.complete.len() ==> (
                    #[trigger] final(self).assembler@.complete[i]).props.port_id != old(
                        self,
                    ).config.result_port
            },
    {
        match pending.verdict {
            Verdict::Pending => {
                let ghost before = self.assembler@.complete;
                let ghost others = off_ports(only(self.config.result_port));
                let ports: Vec<u16> = vec![self.config.result_port];
                assert(ports@ =~= only(self.config.result_port));
                let frames = self.assembler.take_ports(ports.as_slice());
                let found = read_results(&frames);
                let v = judge(&found, self.config.accepted_code, now, pending.deadline);
                pending.verdict = v;
                proof {
                    assert forall|i: int| 0 <= i < before.filter(others).len() implies (
                    #[trigger] before.filter(others)[i]).props.port_id != self.config.result_port by {
                        before.lemma_filter_pred(others, i);
                        assert(only(self.config.result_port)[0] == self.config.result_port);
                    }
                }
                v
            },
            settled => settled,
        }
    }
}

} // verus!
